//! The shared state of one overlapped byte channel: a read driver and a
//! write driver.
//!
//! A driver is driven from two sides.  Kernel worker callbacks report
//! completions (`completion_ok`, `completion_failed`), and user tasks poll
//! for results (`poll_next`, `poll`).  The embedding program serialises the
//! two sides — one kernel callback at a time, polls between callbacks — so
//! the drivers are written as plain state machines.

use crate::buffer::IoBuffer;
use crate::codec::spec_drain;
use crate::codec::stream_items;
use crate::codec::stream_rest;
use crate::codec::Decode;
use crate::codec::DecodeOutcome;
use crate::codec::SinkEncode;
use crate::errors::SinkEncodeError;
use crate::errors::SinkError;
use crate::errors::StreamError;
use crate::handle::ReadOverlapped;
use crate::handle::ThreadpoolIoWork;
use crate::handle::WriteOverlapped;
use crate::overlapped::Overlapped;
use crate::overlapped::OverlappedError;
use std::collections::VecDeque;
use vstd::prelude::*;

verus! {

/// An entry of the completion queue, at the specification level: the view of
/// a decoded item, or a stream error whose decode payload is viewed.
pub type StreamItemView<D> = Result<
    <<D as Decode>::Item as View>::V,
    StreamError<<<D as Decode>::Error as View>::V>,
>;

/// The view of one completion-queue entry.
pub open spec fn elem_view<D: Decode>(
    e: Result<<D as Decode>::Item, StreamError<<D as Decode>::Error>>,
) -> StreamItemView<D> {
    match e {
        Ok(item) => Ok(item@),
        Err(StreamError::Overlapped(oe)) => Err(StreamError::Overlapped(oe)),
        Err(StreamError::Decode(de)) => Err(StreamError::Decode(de@)),
        Err(StreamError::QueueFull) => Err(StreamError::QueueFull),
    }
}

/// Decode outcomes as completion-queue entries: a decode error is wrapped as
/// a stream error.
pub open spec fn outcome_views<D: Decode>(outs: Seq<DecodeOutcome<D>>) -> Seq<
    StreamItemView<D>,
> {
    outs.map_values(
        |o: DecodeOutcome<D>|
            match o {
                Ok(v) => Ok(v),
                Err(e) => Err(StreamError::Decode(e)),
            },
    )
}

/// The completion-queue discipline, applied to each new entry in turn: an
/// entry is appended while the queue holds fewer than `depth` entries; once
/// an entry finds the queue full it is dropped and the queue is marked
/// overflowed, which condemns the stream, and every later entry is dropped
/// too.
pub open spec fn enqueue_all<T>(q: Seq<T>, news: Seq<T>, depth: int, overflowed: bool) -> (
    Seq<T>,
    bool,
)
    decreases news.len(),
{
    if news.len() == 0 {
        (q, overflowed)
    } else {
        if overflowed {
            enqueue_all(q, news.skip(1), depth, true)
        } else if q.len() < depth {
            enqueue_all(q.push(news[0]), news.skip(1), depth, false)
        } else {
            enqueue_all(q, news.skip(1), depth, true)
        }
    }
}

/// Appending one more entry to the batch applies the discipline once more to
/// the batch's outcome.
proof fn lemma_enqueue_all_snoc<T>(q: Seq<T>, news: Seq<T>, x: T, depth: int, overflowed: bool)
    ensures
        ({
            let mid = enqueue_all(q, news, depth, overflowed);
            enqueue_all(q, news.push(x), depth, overflowed) == if mid.1 {
                (mid.0, true)
            } else if mid.0.len() < depth {
                (mid.0.push(x), false)
            } else {
                (mid.0, true)
            }
        }),
    decreases news.len(),
{
    if news.len() == 0 {
        let one = news.push(x);
        assert(one.skip(1) =~= Seq::<T>::empty());
        assert(one[0] == x);
        assert(enqueue_all(q, news, depth, overflowed) == (q, overflowed));
        if overflowed {
            assert(enqueue_all(q, one, depth, overflowed) == enqueue_all(
                q,
                one.skip(1),
                depth,
                true,
            ));
            assert(enqueue_all(q, one.skip(1), depth, true) == (q, true));
        } else if q.len() < depth {
            assert(enqueue_all(q, one, depth, overflowed) == enqueue_all(
                q.push(x),
                one.skip(1),
                depth,
                false,
            ));
            assert(enqueue_all(q.push(x), one.skip(1), depth, false) == (q.push(x), false));
        } else {
            assert(enqueue_all(q, one, depth, overflowed) == enqueue_all(
                q,
                one.skip(1),
                depth,
                true,
            ));
            assert(enqueue_all(q, one.skip(1), depth, true) == (q, true));
        }
    } else {
        assert(news.push(x).skip(1) =~= news.skip(1).push(x));
        assert(news.push(x)[0] == news[0]);
        if overflowed {
            lemma_enqueue_all_snoc(q, news.skip(1), x, depth, true);
        } else if q.len() < depth {
            lemma_enqueue_all_snoc(q.push(news[0]), news.skip(1), x, depth, false);
        } else {
            lemma_enqueue_all_snoc(q, news.skip(1), x, depth, true);
        }
    }
}

/// Viewing outcomes distributes over concatenation.
proof fn lemma_outcome_views_append<D: Decode>(a: Seq<DecodeOutcome<D>>, b: Seq<DecodeOutcome<D>>)
    ensures
        outcome_views::<D>(a + b) == outcome_views::<D>(a) + outcome_views::<D>(b),
{
    assert(outcome_views::<D>(a + b) =~= outcome_views::<D>(a) + outcome_views::<D>(b));
}

/// Batches enqueue one after the other: applying the discipline to a
/// concatenation is applying it to the first batch and then to the second.
proof fn lemma_enqueue_all_append<T>(q: Seq<T>, a: Seq<T>, b: Seq<T>, depth: int, overflowed: bool)
    ensures
        ({
            let mid = enqueue_all(q, a, depth, overflowed);
            enqueue_all(q, a + b, depth, overflowed) == enqueue_all(mid.0, b, depth, mid.1)
        }),
    decreases a.len(),
{
    if a.len() == 0 {
        assert(a + b =~= b);
    } else {
        assert((a + b)[0] == a[0]);
        assert((a + b).skip(1) =~= a.skip(1) + b);
        if overflowed {
            lemma_enqueue_all_append(q, a.skip(1), b, depth, true);
        } else if q.len() < depth {
            lemma_enqueue_all_append(q.push(a[0]), a.skip(1), b, depth, false);
        } else {
            lemma_enqueue_all_append(q, a.skip(1), b, depth, true);
        }
    }
}

/// Law: the queue discipline loses no queued entry — whatever arrives later
/// (and however much of it overflows), the entries already queued stay, in
/// order, at the front.  With the overflow marker delivered after them, a
/// consumer that observes the queue-full error has missed none of the items
/// queued before the overflow.
pub proof fn lemma_no_loss_of_queued<T>(q: Seq<T>, news: Seq<T>, depth: int, overflowed: bool)
    ensures
        enqueue_all(q, news, depth, overflowed).0.take(q.len() as int) == q,
        q.len() <= enqueue_all(q, news, depth, overflowed).0.len(),
    decreases news.len(),
{
    if news.len() == 0 {
        assert(q.take(q.len() as int) =~= q);
    } else if overflowed {
        lemma_no_loss_of_queued(q, news.skip(1), depth, true);
    } else if q.len() < depth {
        lemma_no_loss_of_queued(q.push(news[0]), news.skip(1), depth, false);
        assert(enqueue_all(q.push(news[0]), news.skip(1), depth, false).0.take(q.len() as int)
            =~= enqueue_all(q.push(news[0]), news.skip(1), depth, false).0.take(
            q.push(news[0]).len() as int,
        ).take(q.len() as int));
        assert(q.push(news[0]).take(q.len() as int) =~= q);
    } else {
        lemma_no_loss_of_queued(q, news.skip(1), depth, true);
    }
}

/// What a read cycle reports to its caller.
#[derive(Debug, Copy, Clone, PartialEq, Eq, Structural)]
pub enum ReadStart {
    /// The kernel owns an in-flight read; a completion callback will arrive.
    Pending,
    /// The cycle ended on a synchronous error, which was queued; no callback
    /// will arrive until the caller starts a new cycle.
    Stopped,
}

/// What polling the decoded-item stream yields.
pub enum ReadPoll<T, E> {
    /// The next decoded item or stream error.
    Item(Result<T, StreamError<E>>),
    /// The stream is over: end of file was reached, or the queue overflowed
    /// and its backlog has been delivered.
    Ended,
    /// Nothing queued; the embedding program parks the task.
    Pending,
}

/// A batch of entries reaching the queue carries a trailing overlapped error
/// behind the decoded outcomes.
pub open spec fn enqueued_with_trailing_error<D: Decode>(
    q0: Seq<StreamItemView<D>>,
    overflowed0: bool,
    produced: Seq<StreamItemView<D>>,
    depth: int,
    q1: Seq<StreamItemView<D>>,
    overflowed1: bool,
) -> bool {
    exists|e: OverlappedError|
        !(e is Pending) && (q1, overflowed1) == enqueue_all(
            q0,
            produced.push(Err(StreamError::Overlapped(e))),
            depth,
            overflowed0,
        )
}

/// The read side of one overlapped byte channel.
///
/// It owns the channel handle, the decoder, the byte buffer the kernel reads
/// into, the per-I/O completion block, and a bounded queue of decoded items
/// awaiting the consumer.  The queue depth is at least two, so that the
/// overflow marker always has a slot conceptually reserved; a depth below two
/// is a configuration error rejected at construction.
pub struct ReadDriver<R, D: Decode> {
    handle: R,
    decoder: D,
    buf: IoBuffer,
    overlapped: Overlapped,
    queue: VecDeque<Result<D::Item, StreamError<D::Error>>>,
    depth: usize,
    overflowed: bool,
    ended: bool,
    fed: Ghost<Seq<u8>>,
}

impl<R, D: Decode> ReadDriver<R, D> {
    /// The queued entries, oldest first.
    pub closed spec fn spec_queue(&self) -> Seq<Result<D::Item, StreamError<D::Error>>> {
        self.queue@
    }

    /// The queued entries, oldest first, at the view level.
    pub open spec fn queued_views(&self) -> Seq<StreamItemView<D>> {
        self.spec_queue().map_values(
            |e: Result<D::Item, StreamError<D::Error>>| elem_view::<D>(e),
        )
    }

    /// The queue depth the driver was configured with.
    pub closed spec fn spec_depth(&self) -> usize {
        self.depth
    }

    /// A push has found the queue full, condemning the stream.
    pub closed spec fn spec_overflowed(&self) -> bool {
        self.overflowed
    }

    /// The consumer has observed the end of the stream.
    pub closed spec fn spec_ended(&self) -> bool {
        self.ended
    }

    /// The bytes delivered by the kernel that no complete frame covers yet.
    pub closed spec fn spec_rest(&self) -> Seq<u8> {
        self.buf@
    }

    /// The capacity of the byte buffer.
    pub closed spec fn spec_buffer_capacity(&self) -> usize {
        self.buf.spec_capacity()
    }

    /// Every byte the kernel has delivered on this channel.
    pub closed spec fn spec_fed(&self) -> Seq<u8> {
        self.fed@
    }

    /// Between calls the driver is fully drained: the buffer holds exactly
    /// the undecodable remainder of everything fed so far, and the queue
    /// respects its depth.
    pub closed spec fn wf(&self) -> bool {
        &&& self.buf.wf()
        &&& self.decoder.inv(self.buf@)
        &&& D::spec_step(self.buf@) is None
        &&& self.buf@ == stream_rest::<D>(self.fed@)
        &&& self.queue@.len() <= self.depth
        &&& 2 <= self.depth
    }

    /// Create the read side over a fresh decoder.  A queue depth below two
    /// cannot hold an item and the overflow marker, so it is rejected here.
    pub fn new(handle: R, decoder: D, capacity: usize, queue: usize) -> (r: ReadDriver<R, D>)
        requires
            2 <= queue,
            decoder.inv(Seq::<u8>::empty()),
        ensures
            r.wf(),
            r.spec_fed() == Seq::<u8>::empty(),
            r.spec_rest() == Seq::<u8>::empty(),
            r.spec_queue() == Seq::<Result<D::Item, StreamError<D::Error>>>::empty(),
            !r.spec_overflowed(),
            !r.spec_ended(),
            r.spec_depth() == queue,
            r.spec_buffer_capacity() == capacity,
    {
        proof {
            D::lemma_step_bounds(Seq::<u8>::empty());
        }
        ReadDriver {
            handle,
            decoder,
            buf: IoBuffer::with_capacity(capacity),
            overlapped: Overlapped::new_read(0),
            queue: VecDeque::new(),
            depth: queue,
            overflowed: false,
            ended: false,
            fed: Ghost(Seq::<u8>::empty()),
        }
    }

    /// Spare buffer capacity: how many bytes the kernel may deliver in the
    /// next completion.
    pub fn buffer_remaining(&self) -> (n: usize)
        requires
            self.wf(),
        ensures
            n == self.spec_buffer_capacity() - self.spec_rest().len(),
    {
        self.buf.remaining()
    }

    /// Apply the queue discipline to one new entry.
    fn push_result(&mut self, r: Result<D::Item, StreamError<D::Error>>)
        requires
            old(self).queue@.len() <= old(self).depth,
        ensures
            final(self).handle == old(self).handle,
            final(self).decoder == old(self).decoder,
            final(self).buf == old(self).buf,
            final(self).overlapped == old(self).overlapped,
            final(self).depth == old(self).depth,
            final(self).ended == old(self).ended,
            final(self).fed == old(self).fed,
            final(self).queue@.len() <= final(self).depth,
            if old(self).overflowed {
                final(self).queue@ == old(self).queue@ && final(self).overflowed
            } else if old(self).queue@.len() < old(self).depth {
                final(self).queue@ == old(self).queue@.push(r) && !final(self).overflowed
            } else {
                final(self).queue@ == old(self).queue@ && final(self).overflowed
            },
    {
        if self.overflowed {
        } else if self.queue.len() < self.depth {
            self.queue.push_back(r);
        } else {
            self.overflowed = true;
        }
    }

    /// Ask the decoder for every complete frame in the buffer and queue the
    /// outcomes under the queue discipline.
    fn drain(&mut self)
        requires
            old(self).buf.wf(),
            old(self).decoder.inv(old(self).buf@),
            old(self).queue@.len() <= old(self).depth,
        ensures
            final(self).handle == old(self).handle,
            final(self).overlapped == old(self).overlapped,
            final(self).depth == old(self).depth,
            final(self).ended == old(self).ended,
            final(self).fed == old(self).fed,
            final(self).buf.wf(),
            final(self).buf.spec_capacity() == old(self).buf.spec_capacity(),
            final(self).decoder.inv(final(self).buf@),
            D::spec_step(final(self).buf@) is None,
            final(self).buf@ == spec_drain::<D>(old(self).buf@).1,
            final(self).queue@.len() <= final(self).depth,
            (final(self).queued_views(), final(self).overflowed) == enqueue_all(
                old(self).queued_views(),
                outcome_views::<D>(spec_drain::<D>(old(self).buf@).0),
                old(self).depth as int,
                old(self).overflowed,
            ),
    {
        let ghost mut done: Seq<DecodeOutcome<D>> = Seq::empty();
        proof {
            assert(outcome_views::<D>(done) =~= Seq::<StreamItemView<D>>::empty());
        }
        loop
            invariant
                self.handle == old(self).handle,
                self.overlapped == old(self).overlapped,
                self.depth == old(self).depth,
                self.ended == old(self).ended,
                self.fed == old(self).fed,
                self.buf.wf(),
                self.buf.spec_capacity() == old(self).buf.spec_capacity(),
                self.decoder.inv(self.buf@),
                self.queue@.len() <= self.depth,
                spec_drain::<D>(old(self).buf@).0 == done + spec_drain::<D>(self.buf@).0,
                spec_drain::<D>(old(self).buf@).1 == spec_drain::<D>(self.buf@).1,
                (self.queued_views(), self.overflowed) == enqueue_all(
                    old(self).queued_views(),
                    outcome_views::<D>(done),
                    old(self).depth as int,
                    old(self).overflowed,
                ),
            ensures
                D::spec_step(self.buf@) is None,
                self.buf@ == spec_drain::<D>(old(self).buf@).1,
                spec_drain::<D>(old(self).buf@).0 == done + spec_drain::<D>(self.buf@).0,
                (self.queued_views(), self.overflowed) == enqueue_all(
                    old(self).queued_views(),
                    outcome_views::<D>(done),
                    old(self).depth as int,
                    old(self).overflowed,
                ),
                self.handle == old(self).handle,
                self.overlapped == old(self).overlapped,
                self.depth == old(self).depth,
                self.ended == old(self).ended,
                self.fed == old(self).fed,
                self.buf.wf(),
                self.buf.spec_capacity() == old(self).buf.spec_capacity(),
                self.decoder.inv(self.buf@),
                self.queue@.len() <= self.depth,
            decreases self.buf@.len(),
        {
            let ghost pre = self.buf@;
            let ghost views_pre = self.queued_views();
            let ghost of_pre = self.overflowed;
            proof {
                D::lemma_step_bounds(pre);
            }
            let step = self.decoder.decode(&mut self.buf);
            let entry: Result<D::Item, StreamError<D::Error>> = match step {
                Ok(None) => {
                    proof {
                        assert(spec_drain::<D>(pre).0 =~= Seq::<DecodeOutcome<D>>::empty());
                    }
                    break ;
                },
                Ok(Some(item)) => Ok(item),
                Err(e) => Err(StreamError::Decode(e)),
            };
            let ghost out = D::spec_step(pre)->Some_0.0;
            proof {
                assert(spec_drain::<D>(pre).0 == seq![out] + spec_drain::<D>(self.buf@).0);
                assert(spec_drain::<D>(pre).1 == spec_drain::<D>(self.buf@).1);
                assert(spec_drain::<D>(old(self).buf@).0 == done.push(out) + spec_drain::<D>(
                    self.buf@,
                ).0) by {
                    assert(done + (seq![out] + spec_drain::<D>(self.buf@).0) =~= done.push(
                        out,
                    ) + spec_drain::<D>(self.buf@).0);
                }
                assert(elem_view::<D>(entry) == outcome_views::<D>(done.push(out)).last());
                assert(outcome_views::<D>(done.push(out)).drop_last() =~= outcome_views::<D>(
                    done,
                ));
                assert(outcome_views::<D>(done.push(out)) == outcome_views::<D>(done).push(
                    elem_view::<D>(entry),
                ));
                lemma_enqueue_all_snoc(
                    old(self).queued_views(),
                    outcome_views::<D>(done),
                    elem_view::<D>(entry),
                    old(self).depth as int,
                    old(self).overflowed,
                );
            }
            self.push_result(entry);
            proof {
                done = done.push(out);
                if !of_pre && views_pre.len() < self.depth {
                    assert(self.queued_views() =~= views_pre.push(elem_view::<D>(entry)));
                }
            }
        }
    }

    /// The kernel delivered `arrived` bytes into the buffer's spare tail:
    /// extend the logical length, decode every complete frame, and queue the
    /// outcomes under the queue discipline.
    ///
    /// The last clause is the decoder-resumability law at work: the driver's
    /// cumulative production depends only on the concatenation of everything
    /// the kernel has delivered, never on how it was chunked.
    pub fn completion_ok(&mut self, arrived: &[u8])
        requires
            old(self).wf(),
            arrived@.len() <= old(self).spec_buffer_capacity() - old(self).spec_rest().len(),
        ensures
            final(self).wf(),
            final(self).spec_fed() == old(self).spec_fed() + arrived@,
            final(self).spec_rest() == stream_rest::<D>(old(self).spec_rest() + arrived@),
            final(self).spec_depth() == old(self).spec_depth(),
            final(self).spec_buffer_capacity() == old(self).spec_buffer_capacity(),
            final(self).spec_ended() == old(self).spec_ended(),
            (final(self).queued_views(), final(self).spec_overflowed()) == enqueue_all(
                old(self).queued_views(),
                outcome_views::<D>(stream_items::<D>(old(self).spec_rest() + arrived@)),
                old(self).spec_depth() as int,
                old(self).spec_overflowed(),
            ),
            stream_items::<D>(final(self).spec_fed()) == stream_items::<D>(
                old(self).spec_fed(),
            ) + stream_items::<D>(old(self).spec_rest() + arrived@),
    {
        let ghost rest0 = self.buf@;
        self.buf.extend_from_slice(arrived);
        proof {
            self.decoder.lemma_inv_extend(rest0, arrived@);
            self.fed@ = self.fed@ + arrived@;
        }
        self.drain();
        proof {
            crate::codec::lemma_decode_resumable::<D>(old(self).fed@, arrived@);
        }
    }

    /// The kernel reported a failed read with the given system error code: a
    /// single failure entry is queued and no read is reissued.
    pub fn completion_failed(&mut self, code: i32)
        requires
            old(self).wf(),
        ensures
            final(self).wf(),
            final(self).spec_fed() == old(self).spec_fed(),
            final(self).spec_rest() == old(self).spec_rest(),
            final(self).spec_depth() == old(self).spec_depth(),
            final(self).spec_buffer_capacity() == old(self).spec_buffer_capacity(),
            final(self).spec_ended() == old(self).spec_ended(),
            (final(self).queued_views(), final(self).spec_overflowed()) == enqueue_all(
                old(self).queued_views(),
                seq![Err::<<D::Item as View>::V, _>(StreamError::Overlapped(OverlappedError::Os(code)))],
                old(self).spec_depth() as int,
                old(self).spec_overflowed(),
            ),
    {
        let ghost views0 = self.queued_views();
        let entry: Result<D::Item, StreamError<D::Error>> = Err(
            StreamError::Overlapped(OverlappedError::Os(code)),
        );
        proof {
            lemma_enqueue_all_snoc(
                views0,
                Seq::<StreamItemView<D>>::empty(),
                elem_view::<D>(entry),
                self.depth as int,
                self.overflowed,
            );
            assert(Seq::<StreamItemView<D>>::empty().push(elem_view::<D>(entry))
                =~= seq![elem_view::<D>(entry)]);
            assert(enqueue_all(
                views0,
                Seq::<StreamItemView<D>>::empty(),
                self.depth as int,
                self.overflowed,
            ) == (views0, self.overflowed));
        }
        self.push_result(entry);
        proof {
            if !old(self).overflowed && views0.len() < self.depth {
                assert(self.queued_views() =~= views0.push(elem_view::<D>(entry)));
            }
        }
    }

    /// Start a read cycle: issue reads for as long as the kernel completes
    /// them synchronously, then decode everything that arrived.
    ///
    /// The cycle ends in one of three ways, and the result says which side
    /// owns the channel afterwards.  On `Pending` the kernel owns an
    /// in-flight read and will invoke the completion callback; on `Stopped` a
    /// synchronous error (end of file included) was queued and the channel is
    /// quiet.  The caller must hold the cycle exclusively: either this is the
    /// first start, or all callbacks of the previous cycle have quiesced.
    pub fn start<P: ThreadpoolIoWork>(&mut self, pool: &P) -> (r: ReadStart) where
        R: ReadOverlapped,

        requires
            old(self).wf(),
        ensures
            final(self).wf(),
            final(self).spec_depth() == old(self).spec_depth(),
            final(self).spec_buffer_capacity() == old(self).spec_buffer_capacity(),
            final(self).spec_ended() == old(self).spec_ended(),
            old(self).spec_fed().len() <= final(self).spec_fed().len(),
            final(self).spec_fed().take(old(self).spec_fed().len() as int) == old(self).spec_fed(),
            ({
                let delivered = final(self).spec_fed().skip(old(self).spec_fed().len() as int);
                let produced = outcome_views::<D>(
                    stream_items::<D>(old(self).spec_rest() + delivered),
                );
                match r {
                    ReadStart::Pending => (final(self).queued_views(), final(self).spec_overflowed()) == enqueue_all(
                        old(self).queued_views(),
                        produced,
                        old(self).spec_depth() as int,
                        old(self).spec_overflowed(),
                    ),
                    ReadStart::Stopped => enqueued_with_trailing_error::<D>(
                        old(self).queued_views(),
                        old(self).spec_overflowed(),
                        produced,
                        old(self).spec_depth() as int,
                        final(self).queued_views(),
                        final(self).spec_overflowed(),
                    ),
                }
            }),
    {
        let mut outcome = ReadStart::Pending;
        let mut failure: Option<OverlappedError> = None;
        proof {
            assert(old(self).fed@.take(old(self).fed@.len() as int) =~= old(self).fed@);
            assert(old(self).buf@ + old(self).fed@.skip(old(self).fed@.len() as int) =~= old(self).buf@);
        }
        loop
            invariant_except_break
                outcome == ReadStart::Pending,
                failure is None,
            invariant
                self.depth == old(self).depth,
                self.ended == old(self).ended,
                self.queue == old(self).queue,
                self.overflowed == old(self).overflowed,
                self.decoder == old(self).decoder,
                self.buf.wf(),
                self.buf.spec_capacity() == old(self).buf.spec_capacity(),
                self.decoder.inv(self.buf@),
                self.queue@.len() <= self.depth,
                2 <= self.depth,
                old(self).fed@.len() <= self.fed@.len(),
                self.fed@.take(old(self).fed@.len() as int) == old(self).fed@,
                self.buf@ == old(self).buf@ + self.fed@.skip(old(self).fed@.len() as int),
            ensures
                self.depth == old(self).depth,
                self.ended == old(self).ended,
                self.queue == old(self).queue,
                self.overflowed == old(self).overflowed,
                self.decoder == old(self).decoder,
                self.buf.wf(),
                self.buf.spec_capacity() == old(self).buf.spec_capacity(),
                self.decoder.inv(self.buf@),
                self.queue@.len() <= self.depth,
                2 <= self.depth,
                old(self).fed@.len() <= self.fed@.len(),
                self.fed@.take(old(self).fed@.len() as int) == old(self).fed@,
                self.buf@ == old(self).buf@ + self.fed@.skip(old(self).fed@.len() as int),
                match failure {
                    None => outcome == ReadStart::Pending,
                    Some(e) => outcome == ReadStart::Stopped && !(e is Pending),
                },
            decreases self.buf.spec_capacity() - self.buf@.len(),
        {
            pool.start();
            let ghost pre = self.buf@;
            let step = self.handle.read_overlapped(&mut self.overlapped, &mut self.buf);
            match step {
                Err(OverlappedError::Pending) => {
                    break ;
                },
                Err(e) => {
                    pool.cancel();
                    outcome = ReadStart::Stopped;
                    failure = Some(e);
                    break ;
                },
                Ok(n) => {
                    pool.cancel();
                    proof {
                        self.decoder.lemma_inv_extend(pre, self.buf@.skip(pre.len() as int));
                        assert(pre + self.buf@.skip(pre.len() as int) =~= self.buf@);
                        self.fed@ = self.fed@ + self.buf@.skip(pre.len() as int);
                        assert(self.fed@.take(old(self).fed@.len() as int) =~= old(self).fed@);
                        assert(self.buf@ == old(self).buf@ + self.fed@.skip(
                            old(self).fed@.len() as int,
                        )) by {
                            assert(old(self).buf@ + self.fed@.skip(old(self).fed@.len() as int)
                                =~= self.buf@);
                        }
                    }
                },
            }
        }
        let ghost delivered = self.fed@.skip(old(self).fed@.len() as int);
        let ghost rest_plus = old(self).buf@ + delivered;
        let ghost views0 = self.queued_views();
        self.drain();
        proof {
            crate::codec::lemma_decode_resumable::<D>(old(self).fed@, delivered);
            assert(old(self).fed@ + delivered =~= self.fed@);
        }
        match failure {
            Some(e) => {
                let ghost views1 = self.queued_views();
                let ghost of1 = self.overflowed;
                let ghost ev = e;
                let entry: Result<D::Item, StreamError<D::Error>> = Err(
                    StreamError::Overlapped(e),
                );
                proof {
                    lemma_enqueue_all_snoc(
                        views0,
                        outcome_views::<D>(stream_items::<D>(rest_plus)),
                        elem_view::<D>(entry),
                        self.depth as int,
                        old(self).overflowed,
                    );
                }
                self.push_result(entry);
                proof {
                    if !of1 && views1.len() < self.depth {
                        assert(self.queued_views() =~= views1.push(elem_view::<D>(entry)));
                    }
                    assert((self.queued_views(), self.overflowed) == enqueue_all(
                        views0,
                        outcome_views::<D>(stream_items::<D>(rest_plus)).push(
                            Err(StreamError::Overlapped(ev)),
                        ),
                        self.depth as int,
                        old(self).overflowed,
                    ));
                }
            },
            None => {},
        }
        outcome
    }

    /// Process one successful kernel read completion: absorb the `arrived`
    /// bytes, decode and queue every complete frame, then synchronously issue
    /// a fresh read cycle, looping exactly as `start` does.
    ///
    /// Everything the kernel has delivered — the completion's bytes followed
    /// by whatever the new cycle read synchronously — reaches the queue as
    /// one batch under the queue discipline, with a trailing failure entry
    /// when the new cycle stopped on an error.
    pub fn completion<P: ThreadpoolIoWork>(&mut self, arrived: &[u8], pool: &P) -> (r: ReadStart) where
        R: ReadOverlapped,

        requires
            old(self).wf(),
            arrived@.len() <= old(self).spec_buffer_capacity() - old(self).spec_rest().len(),
        ensures
            final(self).wf(),
            final(self).spec_depth() == old(self).spec_depth(),
            final(self).spec_buffer_capacity() == old(self).spec_buffer_capacity(),
            final(self).spec_ended() == old(self).spec_ended(),
            old(self).spec_fed().len() + arrived@.len() <= final(self).spec_fed().len(),
            final(self).spec_fed().take(old(self).spec_fed().len() as int) == old(self).spec_fed(),
            ({
                let delivered = final(self).spec_fed().skip(old(self).spec_fed().len() as int);
                let produced = outcome_views::<D>(
                    stream_items::<D>(old(self).spec_rest() + delivered),
                );
                delivered.take(arrived@.len() as int) == arrived@ && match r {
                    ReadStart::Pending => (final(self).queued_views(), final(self).spec_overflowed()) == enqueue_all(
                        old(self).queued_views(),
                        produced,
                        old(self).spec_depth() as int,
                        old(self).spec_overflowed(),
                    ),
                    ReadStart::Stopped => enqueued_with_trailing_error::<D>(
                        old(self).queued_views(),
                        old(self).spec_overflowed(),
                        produced,
                        old(self).spec_depth() as int,
                        final(self).queued_views(),
                        final(self).spec_overflowed(),
                    ),
                }
            }),
    {
        let ghost fed0 = self.fed@;
        let ghost rest0 = self.buf@;
        let ghost views0 = self.queued_views();
        let ghost of0 = self.overflowed;
        let ghost depth0 = self.depth as int;
        self.completion_ok(arrived);
        let ghost fed1 = self.fed@;
        let ghost rest1 = self.buf@;
        let status = self.start(pool);
        proof {
            let more = self.fed@.skip(fed1.len() as int);
            let delivered = self.fed@.skip(fed0.len() as int);
            assert(fed1 =~= fed0 + arrived@);
            assert(self.fed@.take(fed1.len() as int) == fed1);
            assert(delivered =~= arrived@ + more) by {
                assert forall|i: int| 0 <= i < delivered.len() implies delivered[i] == (arrived@
                    + more)[i] by {
                    if i < arrived@.len() {
                        assert(self.fed@[fed0.len() + i] == self.fed@.take(
                            fed1.len() as int,
                        )[fed0.len() + i]);
                    }
                }
            }
            assert(delivered.take(arrived@.len() as int) =~= arrived@);
            assert(self.fed@.take(fed0.len() as int) =~= fed0);
            // Items of the whole delivery split at the completion boundary.
            assert(rest0 + delivered =~= (rest0 + arrived@) + more);
            crate::codec::lemma_decode_resumable::<D>(rest0 + arrived@, more);
            assert(stream_items::<D>(rest0 + delivered) == stream_items::<D>(rest0 + arrived@)
                + stream_items::<D>(rest1 + more)) by {
                assert(stream_rest::<D>(rest0 + arrived@) == rest1);
            }
            let p1 = outcome_views::<D>(stream_items::<D>(rest0 + arrived@));
            let p2 = outcome_views::<D>(stream_items::<D>(rest1 + more));
            let produced = outcome_views::<D>(stream_items::<D>(rest0 + delivered));
            assert(produced =~= p1 + p2) by {
                lemma_outcome_views_append::<D>(
                    stream_items::<D>(rest0 + arrived@),
                    stream_items::<D>(rest1 + more),
                );
            }
            lemma_enqueue_all_append(views0, p1, p2, depth0, of0);
            match status {
                ReadStart::Pending => {},
                ReadStart::Stopped => {
                    let mid = enqueue_all(views0, p1, depth0, of0);
                    let e = choose|e: OverlappedError|
                        !(e is Pending) && (self.queued_views(), self.overflowed) == enqueue_all(
                            mid.0,
                            p2.push(Err(StreamError::Overlapped(e))),
                            depth0,
                            mid.1,
                        );
                    lemma_enqueue_all_append(
                        views0,
                        p1,
                        p2.push(Err(StreamError::Overlapped(e))),
                        depth0,
                        of0,
                    );
                    assert(p1 + p2.push(Err(StreamError::Overlapped(e))) =~= produced.push(
                        Err(StreamError::Overlapped(e)),
                    ));
                },
            }
        }
        status
    }

    /// Pop the next stream entry for the consumer.
    ///
    /// Entries leave in arrival order.  An end-of-file entry ends the stream;
    /// when the queue has overflowed, the queued backlog is delivered first,
    /// then exactly one `QueueFull` error, then the stream ends.  The
    /// embedding program installs its waker before calling and parks the task
    /// on `Pending`.
    pub fn poll_next(&mut self) -> (r: ReadPoll<D::Item, D::Error>)
        requires
            old(self).wf(),
        ensures
            final(self).wf(),
            final(self).spec_fed() == old(self).spec_fed(),
            final(self).spec_rest() == old(self).spec_rest(),
            final(self).spec_depth() == old(self).spec_depth(),
            final(self).spec_buffer_capacity() == old(self).spec_buffer_capacity(),
            if old(self).spec_ended() {
                r is Ended && final(self).spec_queue() == old(self).spec_queue() && final(self).spec_ended() && final(self).spec_overflowed() == old(self).spec_overflowed()
            } else if old(self).spec_queue().len() > 0 {
                final(self).spec_queue() == old(self).spec_queue().skip(1) && final(self).spec_overflowed() == old(self).spec_overflowed() && if old(self).spec_queue()[0] matches Err(StreamError::Overlapped(OverlappedError::Eof)) {
                    r is Ended && final(self).spec_ended()
                } else {
                    (r matches ReadPoll::Item(it) && it == old(self).spec_queue()[0]) && final(self).spec_ended() == old(self).spec_ended()
                }
            } else if old(self).spec_overflowed() {
                r matches ReadPoll::Item(it) && it matches Err(StreamError::QueueFull) && final(self).spec_ended() && final(self).spec_queue() == old(self).spec_queue() && final(self).spec_overflowed() == old(self).spec_overflowed()
            } else {
                r is Pending && final(self).spec_queue() == old(self).spec_queue() && !final(self).spec_ended() && final(self).spec_overflowed() == old(self).spec_overflowed()
            },
    {
        if self.ended {
            return ReadPoll::Ended;
        }
        match self.queue.pop_front() {
            Some(entry) => {
                proof {
                    assert(self.queue@ =~= old(self).queue@.skip(1));
                }
                match entry {
                    Err(StreamError::Overlapped(OverlappedError::Eof)) => {
                        self.ended = true;
                        ReadPoll::Ended
                    },
                    other => ReadPoll::Item(other),
                }
            },
            None => {
                if self.overflowed {
                    self.ended = true;
                    ReadPoll::Item(Err(StreamError::QueueFull))
                } else {
                    ReadPoll::Pending
                }
            },
        }
    }
}

/// The write-side state machine of one overlapped byte channel.
///
/// `Inert` holds between write cycles.  `buffer` installs the bytes of one
/// cycle, `flush` hands them to the kernel until it reports a pending
/// completion, `completion_ok` resumes after the kernel delivers one, and
/// `poll` reports the cycle's result.  Only one cycle may be active; the
/// facade serialises callers.
pub enum WriteState {
    /// No write cycle is active.
    Inert,
    /// Bytes are buffered; the kernel has seen none of them.
    Writing(IoBuffer),
    /// The kernel owns an in-flight write for the head of these bytes.
    Flushing(IoBuffer),
    /// The cycle is over; the result awaits one `poll`.
    Complete(Result<(), SinkError>),
}

/// What polling the write future yields.
pub enum SinkPoll {
    /// The kernel still owes a completion; the embedding program parks the
    /// task.
    Pending,
    /// The cycle's result; the driver is inert again.
    Ready(Result<(), SinkError>),
}

/// The write side of one overlapped byte channel.
pub struct WriteDriver<W> {
    handle: W,
    overlapped: Overlapped,
    state: WriteState,
    goal: Ghost<Seq<u8>>,
    sent: Ghost<nat>,
}

impl<W> WriteDriver<W> {
    /// The state machine's position.
    pub closed spec fn spec_state(&self) -> WriteState {
        self.state
    }

    /// Every byte buffered for the current cycle, in offered order.
    pub closed spec fn spec_goal(&self) -> Seq<u8> {
        self.goal@
    }

    /// How many bytes of the current cycle the kernel has accepted.
    pub closed spec fn spec_sent(&self) -> nat {
        self.sent@
    }

    /// Capacity of the buffer of the active cycle.
    pub closed spec fn spec_write_capacity(&self) -> usize
        recommends
            self.spec_state() is Writing || self.spec_state() is Flushing,
    {
        match self.state {
            WriteState::Writing(b) => b.spec_capacity(),
            WriteState::Flushing(b) => b.spec_capacity(),
            _ => 0,
        }
    }

    /// The kernel accepts the buffered bytes from the head, in order: what
    /// remains is always a suffix of the goal, and a successful cycle has
    /// delivered every byte.
    pub closed spec fn wf(&self) -> bool {
        match self.state {
            WriteState::Inert => true,
            WriteState::Writing(b) => b.wf() && self.sent@ == 0 && b@ == self.goal@,
            WriteState::Flushing(b) => b.wf() && self.sent@ + b@.len() == self.goal@.len()
                && b@ == self.goal@.skip(self.sent@ as int) && b@.len() > 0,
            WriteState::Complete(res) => match res {
                Ok(_) => self.sent@ == self.goal@.len(),
                Err(_) => self.sent@ <= self.goal@.len(),
            },
        }
    }

    pub fn new(handle: W) -> (r: WriteDriver<W>)
        ensures
            r.wf(),
            r.spec_state() is Inert,
    {
        WriteDriver {
            handle,
            overlapped: Overlapped::new_write(0),
            state: WriteState::Inert,
            goal: Ghost(Seq::<u8>::empty()),
            sent: Ghost(0nat),
        }
    }

    /// Install the bytes of a new write cycle.  The previous cycle must be
    /// over: entering here while writing or flushing is a caller error.
    pub fn buffer(&mut self, bytes: IoBuffer)
        requires
            old(self).wf(),
            !(old(self).spec_state() is Writing),
            !(old(self).spec_state() is Flushing),
            bytes.wf(),
        ensures
            final(self).wf(),
            final(self).spec_state() == WriteState::Writing(bytes),
            final(self).spec_goal() == bytes@,
            final(self).spec_sent() == 0,
            final(self).spec_write_capacity() == bytes.spec_capacity(),
    {
        self.state = WriteState::Writing(bytes);
        proof {
            self.goal@ = bytes@;
            self.sent@ = 0;
        }
    }

    /// Serialise one item into the buffered cycle under back-pressure, with
    /// the item's stated encoded length given by the caller: the item is
    /// rejected with `BufferFull` exactly when the stated length plus the
    /// bytes already buffered exceeds the buffer's capacity, and otherwise it
    /// is handed to its encoder, whose outcome decides.
    pub fn push_with_len<I: SinkEncode>(&mut self, stated_len: usize, item: &I) -> (r: Result<
        (),
        SinkEncodeError<I::Error>,
    >)
        requires
            old(self).wf(),
            old(self).spec_state() is Writing,
            stated_len >= item.spec_encoding().len(),
        ensures
            final(self).wf(),
            final(self).spec_state() is Writing,
            final(self).spec_sent() == 0,
            final(self).spec_write_capacity() == old(self).spec_write_capacity(),
            (r matches Err(SinkEncodeError::BufferFull)) <==> stated_len + old(self).spec_goal().len() > old(self).spec_write_capacity(),
            r is Ok ==> final(self).spec_goal() == old(self).spec_goal() + item.spec_encoding(),
            !(r is Ok) ==> final(self).spec_goal() == old(self).spec_goal(),
    {
        let mut outcome: Result<(), SinkEncodeError<I::Error>> = Ok(());
        let mut appended = false;
        match &mut self.state {
            WriteState::Writing(buf) => {
                if stated_len <= buf.capacity() - buf.len() {
                    match item.sink_encode(buf) {
                        Ok(_) => {
                            appended = true;
                        },
                        Err(e) => {
                            outcome = Err(SinkEncodeError::Encode(e));
                        },
                    }
                } else {
                    outcome = Err(SinkEncodeError::BufferFull);
                }
            },
            _ => {},
        }
        proof {
            if appended {
                self.goal@ = self.goal@ + item.spec_encoding();
            }
        }
        outcome
    }

    /// Serialise one item into the buffered cycle, under back-pressure by the
    /// length the item states for itself: an item whose true encoding cannot
    /// fit is always rejected with `BufferFull`, and one whose stated length
    /// fits is accepted (see `push_with_len` for the exact decision on the
    /// stated length, which this function queries from the item).
    pub fn push_encodable<I: SinkEncode>(&mut self, item: &I) -> (r: Result<
        (),
        SinkEncodeError<I::Error>,
    >)
        requires
            old(self).wf(),
            old(self).spec_state() is Writing,
        ensures
            final(self).wf(),
            final(self).spec_state() is Writing,
            final(self).spec_sent() == 0,
            final(self).spec_write_capacity() == old(self).spec_write_capacity(),
            item.spec_encoding().len() + old(self).spec_goal().len() > old(self).spec_write_capacity() ==> r matches Err(SinkEncodeError::BufferFull),
            match r {
                Ok(_) => item.spec_encoding().len() + old(self).spec_goal().len() <= old(self).spec_write_capacity() && final(self).spec_goal() == old(self).spec_goal()
                    + item.spec_encoding(),
                Err(SinkEncodeError::BufferFull) => final(self).spec_goal() == old(self).spec_goal(),
                Err(SinkEncodeError::Encode(_)) => final(self).spec_goal() == old(self).spec_goal(),
            },
    {
        let stated_len = item.sink_encode_len();
        self.push_with_len(stated_len, item)
    }

    /// Hand buffered bytes to the kernel until none remain, the kernel takes
    /// over, or it reports an error.
    ///
    /// The cycle ends `Complete(Ok)` exactly when the handle accepted every
    /// buffered byte; a reported error ends it `Complete(Err)`; a pending
    /// completion parks it `Flushing` with the unsent suffix.  The caller
    /// holds the cycle exclusively: this is the cycle's first flush, or a
    /// kernel completion with no other callback outstanding.
    pub fn flush<P: ThreadpoolIoWork>(&mut self, pool: &P) where W: WriteOverlapped
        requires
            old(self).wf(),
            old(self).spec_state() is Writing || old(self).spec_state() is Flushing,
        ensures
            final(self).wf(),
            final(self).spec_goal() == old(self).spec_goal(),
            old(self).spec_sent() <= final(self).spec_sent() <= final(self).spec_goal().len(),
            match final(self).spec_state() {
                WriteState::Flushing(b) => b@.len() > 0,
                WriteState::Complete(res) => match res {
                    Ok(_) => final(self).spec_sent() == final(self).spec_goal().len(),
                    Err(e) => e matches SinkError::Overlapped(oe) && !(oe is Pending),
                },
                _ => false,
            },
    {
        let mut st = WriteState::Inert;
        core::mem::swap(&mut st, &mut self.state);
        let mut buf = match st {
            WriteState::Writing(b) => b,
            WriteState::Flushing(b) => b,
            WriteState::Inert => IoBuffer::with_capacity(0),
            WriteState::Complete(_) => IoBuffer::with_capacity(0),
        };
        if buf.len() == 0 {
            self.state = WriteState::Complete(Ok(()));
            return ;
        }
        loop
            invariant_except_break
                buf.wf(),
                self.sent@ + buf@.len() == self.goal@.len(),
                buf@ == self.goal@.skip(self.sent@ as int),
                buf@.len() > 0,
            invariant
                self.goal@ == old(self).spec_goal(),
                old(self).spec_sent() <= self.sent@ <= self.goal@.len(),
            ensures
                self.goal@ == old(self).spec_goal(),
                old(self).spec_sent() <= self.sent@ <= self.goal@.len(),
                match self.state {
                    WriteState::Flushing(b) => b.wf() && self.sent@ + b@.len()
                        == self.goal@.len() && b@ == self.goal@.skip(self.sent@ as int)
                        && b@.len() > 0,
                    WriteState::Complete(res) => match res {
                        Ok(_) => self.sent@ == self.goal@.len(),
                        Err(e) => self.sent@ <= self.goal@.len() && (e matches
                        SinkError::Overlapped(oe) && !(oe is Pending)),
                    },
                    _ => false,
                },
            decreases buf@.len(),
        {
            pool.start();
            let step = self.handle.write_overlapped(&mut self.overlapped, &buf);
            match step {
                Err(OverlappedError::Pending) => {
                    self.state = WriteState::Flushing(buf);
                    break ;
                },
                Err(e) => {
                    pool.cancel();
                    self.state = WriteState::Complete(
                        Err(SinkError::Overlapped(e)),
                    );
                    break ;
                },
                Ok(n) => {
                    pool.cancel();
                    buf.advance(n);
                    proof {
                        self.sent@ = (self.sent@ + n) as nat;
                        assert(self.goal@.skip(self.sent@ - n).skip(n as int)
                            =~= self.goal@.skip(self.sent@ as int));
                    }
                    if buf.len() == 0 {
                        self.state = WriteState::Complete(Ok(()));
                        break ;
                    }
                },
            }
        }
    }

    /// The kernel delivered a write completion of `bytes_transferred` bytes:
    /// advance past them and keep flushing; when none remain the cycle is
    /// complete.  A completion can only arrive for an active cycle.
    pub fn completion_ok<P: ThreadpoolIoWork>(&mut self, bytes_transferred: usize, pool: &P) where
        W: WriteOverlapped

        requires
            old(self).wf(),
            old(self).spec_state() is Writing || old(self).spec_state() is Flushing,
            old(self).spec_sent() + bytes_transferred <= old(self).spec_goal().len(),
        ensures
            final(self).wf(),
            final(self).spec_goal() == old(self).spec_goal(),
            old(self).spec_sent() + bytes_transferred <= final(self).spec_sent() <= final(self).spec_goal().len(),
            match final(self).spec_state() {
                WriteState::Flushing(b) => b@.len() > 0,
                WriteState::Complete(res) => match res {
                    Ok(_) => final(self).spec_sent() == final(self).spec_goal().len(),
                    Err(e) => e matches SinkError::Overlapped(oe) && !(oe is Pending),
                },
                _ => false,
            },
    {
        let mut st = WriteState::Inert;
        core::mem::swap(&mut st, &mut self.state);
        let mut buf = match st {
            WriteState::Writing(b) => b,
            WriteState::Flushing(b) => b,
            WriteState::Inert => IoBuffer::with_capacity(0),
            WriteState::Complete(_) => IoBuffer::with_capacity(0),
        };
        buf.advance(bytes_transferred);
        proof {
            self.sent@ = (self.sent@ + bytes_transferred) as nat;
            assert(self.goal@.skip(self.sent@ - bytes_transferred).skip(
                bytes_transferred as int,
            ) =~= self.goal@.skip(self.sent@ as int));
        }
        if buf.len() == 0 {
            self.state = WriteState::Complete(Ok(()));
        } else {
            self.state = WriteState::Flushing(buf);
            self.flush(pool);
        }
    }

    /// The kernel reported a failed write with the given system error code:
    /// the cycle completes with that error.
    pub fn completion_failed(&mut self, code: i32)
        requires
            old(self).wf(),
            old(self).spec_state() is Writing || old(self).spec_state() is Flushing,
        ensures
            final(self).wf(),
            final(self).spec_goal() == old(self).spec_goal(),
            final(self).spec_sent() == old(self).spec_sent(),
            final(self).spec_state() == WriteState::Complete(
                Err::<(), SinkError>(SinkError::Overlapped(OverlappedError::Os(code))),
            ),
    {
        self.state = WriteState::Complete(Err(SinkError::Overlapped(OverlappedError::Os(code))));
    }

    /// Report the cycle's result to the polling task: pending while the
    /// kernel owes a completion, the stored result once complete — and the
    /// driver is then inert, ready for the next cycle.
    pub fn poll(&mut self) -> (r: SinkPoll)
        requires
            old(self).wf(),
            old(self).spec_state() is Flushing || old(self).spec_state() is Complete,
        ensures
            final(self).wf(),
            final(self).spec_goal() == old(self).spec_goal(),
            final(self).spec_sent() == old(self).spec_sent(),
            match old(self).spec_state() {
                WriteState::Flushing(_) => r is Pending && final(self).spec_state() == old(self).spec_state(),
                WriteState::Complete(res) => r == SinkPoll::Ready(res) && final(self).spec_state() is Inert,
                _ => false,
            },
    {
        let mut st = WriteState::Inert;
        core::mem::swap(&mut st, &mut self.state);
        match st {
            WriteState::Flushing(b) => {
                self.state = WriteState::Flushing(b);
                SinkPoll::Pending
            },
            WriteState::Complete(res) => SinkPoll::Ready(res),
            WriteState::Writing(b) => {
                self.state = WriteState::Writing(b);
                SinkPoll::Pending
            },
            WriteState::Inert => SinkPoll::Pending,
        }
    }
}

/// Law: a write cycle that completed successfully delivered through the
/// kernel exactly as many bytes as were buffered for it.
pub proof fn lemma_write_conservation<W>(d: &WriteDriver<W>)
    requires
        d.wf(),
        d.spec_state() matches WriteState::Complete(res) && res is Ok,
    ensures
        d.spec_sent() == d.spec_goal().len(),
{
}

/// Law: while a cycle is flushing, the bytes still owed to the kernel are
/// exactly the unsent suffix of the buffered bytes, in offered order.
pub proof fn lemma_write_in_order<W>(d: &WriteDriver<W>)
    requires
        d.wf(),
        d.spec_state() matches WriteState::Flushing(b),
    ensures
        d.spec_state() matches WriteState::Flushing(b) ==> b@ == d.spec_goal().skip(
            d.spec_sent() as int,
        ),
{
}

} // verus!
