//! The dispatch core: the command queue and the policies around it.
//!
//! `Dispatcher` models the pipeline between the HTTP ingress and the child
//! process's input stream: the FIFO queue of pending commands, the command
//! currently being written, and the two liveness facts the policies depend
//! on — whether the pipeline has suffered a fatal failure, and whether the
//! producer side still exists. Two ghost logs record every command ever
//! accepted and every command whose write completed; the well-formedness
//! invariant ties them to the queue, which is what makes FIFO delivery a
//! provable law rather than an intention.

use vstd::prelude::*;
use crate::command::Command;
use crate::utf8::is_valid_utf8;

verus! {

/// The ingress's outcome for one request.
#[derive(Clone, Copy, Debug, PartialEq, Eq, Structural)]
pub enum RequestOutcome {
    /// The body decoded as UTF-8 and the command was enqueued: the caller
    /// gets a success status and an empty body, and learns nothing about
    /// downstream processing.
    Accepted,
    /// The body was not valid UTF-8: rejected, never enqueued.
    RejectedInvalidUtf8,
    /// The queue's consumer is gone — the pipeline has failed: rejected.
    RejectedPipelineDown,
}

/// What the writer does next.
pub enum WriterStep {
    /// Write this command's bytes to the child's input stream, then record
    /// the outcome with `record_write_ok` or `record_write_failed`.
    Deliver(Command),
    /// The queue is empty but the producer side still exists: block until a
    /// command arrives.
    Wait,
    /// The queue is empty and the producer side is gone: no command can ever
    /// arrive again, a pipeline-fatal condition.
    Disconnected,
}

/// The dispatch pipeline's state.
pub struct Dispatcher {
    pending: Vec<Command>,
    up: bool,
    ingress_open: bool,
    inflight: Ghost<Option<Seq<u8>>>,
    accepted: Ghost<Seq<Seq<u8>>>,
    delivered: Ghost<Seq<Seq<u8>>>,
}

impl Dispatcher {
    /// The bodies of the commands now queued, oldest first.
    pub closed spec fn queue(self) -> Seq<Seq<u8>> {
        self.pending@.map_values(|c: Command| c@)
    }

    /// The body handed to the writer whose write outcome is not yet recorded.
    pub closed spec fn in_flight(self) -> Option<Seq<u8>> {
        self.inflight@
    }

    /// Every body ever enqueued, in queue order.
    pub closed spec fn accepted_log(self) -> Seq<Seq<u8>> {
        self.accepted@
    }

    /// Every body whose write to the child's input completed, in order.
    pub closed spec fn delivered_log(self) -> Seq<Seq<u8>> {
        self.delivered@
    }

    /// The pipeline has not yet suffered a fatal failure.
    pub closed spec fn is_up(self) -> bool {
        self.up
    }

    /// The producer side (the ingress) has not been dropped.
    pub closed spec fn is_ingress_open(self) -> bool {
        self.ingress_open
    }

    /// The in-flight body as a sequence of zero or one elements.
    pub closed spec fn in_flight_seq(self) -> Seq<Seq<u8>> {
        match self.inflight@ {
            Some(b) => seq![b],
            None => Seq::<Seq<u8>>::empty(),
        }
    }

    /// Well-formedness: the accepted history is exactly the delivered
    /// history, then the in-flight command, then the queue — so nothing is
    /// lost, duplicated or reordered between acceptance and delivery — and
    /// every command past the ingress is valid UTF-8 text.
    pub open spec fn wf(self) -> bool {
        &&& self.accepted_log() == self.delivered_log() + self.in_flight_seq() + self.queue()
        &&& forall|i: int| 0 <= i < self.queue().len() ==> is_valid_utf8(#[trigger] self.queue()[i])
        &&& (self.in_flight() matches Some(b) ==> is_valid_utf8(b))
    }

    /// A fresh pipeline: nothing queued, nothing delivered, both sides live.
    pub fn new() -> (d: Dispatcher)
        ensures
            d.wf(),
            d.queue() == Seq::<Seq<u8>>::empty(),
            d.accepted_log() == Seq::<Seq<u8>>::empty(),
            d.delivered_log() == Seq::<Seq<u8>>::empty(),
            d.in_flight() is None,
            d.is_up(),
            d.is_ingress_open(),
    {
        let d = Dispatcher {
            pending: Vec::new(),
            up: true,
            ingress_open: true,
            inflight: Ghost(None),
            accepted: Ghost(Seq::empty()),
            delivered: Ghost(Seq::empty()),
        };
        proof {
            assert(d.queue() =~= Seq::<Seq<u8>>::empty());
            assert(d.accepted_log() =~= d.delivered_log() + d.in_flight_seq() + d.queue());
        }
        d
    }

    /// One inbound request: decode the body as UTF-8 text and enqueue it.
    ///
    /// A body that is not valid UTF-8 is rejected and never enqueued. A
    /// valid body is enqueued exactly once while the pipeline is up —
    /// whatever the child process's state — and rejected without a trace
    /// once the pipeline is down.
    pub fn handle_request(&mut self, body: Vec<u8>) -> (r: RequestOutcome)
        requires
            old(self).wf(),
        ensures
            final(self).wf(),
            final(self).delivered_log() == old(self).delivered_log(),
            final(self).in_flight() == old(self).in_flight(),
            final(self).is_up() == old(self).is_up(),
            final(self).is_ingress_open() == old(self).is_ingress_open(),
            !is_valid_utf8(body@) ==> r == RequestOutcome::RejectedInvalidUtf8
                && *final(self) == *old(self),
            is_valid_utf8(body@) && !old(self).is_up() ==> r
                == RequestOutcome::RejectedPipelineDown && *final(self) == *old(self),
            is_valid_utf8(body@) && old(self).is_up() ==> r == RequestOutcome::Accepted
                && final(self).queue() == old(self).queue().push(body@)
                && final(self).accepted_log() == old(self).accepted_log().push(body@),
    {
        match Command::from_bytes(body) {
            None => RequestOutcome::RejectedInvalidUtf8,
            Some(c) => {
                if !self.up {
                    RequestOutcome::RejectedPipelineDown
                } else {
                    self.accepted = Ghost(self.accepted@.push(c@));
                    let ghost prev = self.pending@;
                    self.pending.push(c);
                    proof {
                        assert(self.queue() =~= prev.map_values(|cc: Command| cc@).push(
                            self.pending@[prev.len() as int]@,
                        ));
                        assert(self.accepted_log() =~= self.delivered_log()
                            + self.in_flight_seq() + self.queue());
                    }
                    RequestOutcome::Accepted
                }
            },
        }
    }

    /// The writer's next step: take the oldest queued command for delivery,
    /// or report why none can be taken.
    ///
    /// `Deliver` hands out exactly the head of the queue; `Wait` is the
    /// empty queue with a live producer; `Disconnected` is the empty queue
    /// with the producer gone, which downs the pipeline.
    pub fn next_command(&mut self) -> (r: WriterStep)
        requires
            old(self).wf(),
            old(self).in_flight() is None,
        ensures
            final(self).wf(),
            final(self).accepted_log() == old(self).accepted_log(),
            final(self).delivered_log() == old(self).delivered_log(),
            final(self).is_ingress_open() == old(self).is_ingress_open(),
            match r {
                WriterStep::Deliver(c) => old(self).queue().len() > 0
                    && c@ == old(self).queue()[0]
                    && c.wf()
                    && final(self).queue() == old(self).queue().drop_first()
                    && final(self).in_flight() == Some(c@)
                    && final(self).is_up() == old(self).is_up(),
                WriterStep::Wait => old(self).queue().len() == 0
                    && old(self).is_ingress_open()
                    && *final(self) == *old(self),
                WriterStep::Disconnected => old(self).queue().len() == 0
                    && !old(self).is_ingress_open()
                    && !final(self).is_up()
                    && final(self).queue() == old(self).queue()
                    && final(self).in_flight() is None,
            },
    {
        if self.pending.len() > 0 {
            let ghost prev = self.pending@;
            let c = self.pending.remove(0);
            self.inflight = Ghost(Some(c@));
            proof {
                assert(is_valid_utf8(old(self).queue()[0]));
                assert(old(self).queue()[0] == c@);
                assert(self.pending@ =~= prev.drop_first());
                assert(self.queue() =~= prev.map_values(|cc: Command| cc@).drop_first());
                assert(self.accepted_log() =~= self.delivered_log() + self.in_flight_seq()
                    + self.queue());
            }
            WriterStep::Deliver(c)
        } else if self.ingress_open {
            WriterStep::Wait
        } else {
            self.up = false;
            WriterStep::Disconnected
        }
    }

    /// The in-flight command's write to the child's input completed: append
    /// it to the delivered history.
    pub fn record_write_ok(&mut self)
        requires
            old(self).wf(),
            old(self).in_flight() is Some,
        ensures
            final(self).wf(),
            final(self).delivered_log() == old(self).delivered_log().push(
                old(self).in_flight().unwrap(),
            ),
            final(self).in_flight() is None,
            final(self).queue() == old(self).queue(),
            final(self).accepted_log() == old(self).accepted_log(),
            final(self).is_up() == old(self).is_up(),
            final(self).is_ingress_open() == old(self).is_ingress_open(),
    {
        self.delivered = Ghost(self.delivered@.push(self.inflight@.unwrap()));
        self.inflight = Ghost(None);
        proof {
            assert(self.accepted_log() =~= self.delivered_log() + self.in_flight_seq()
                + self.queue());
        }
    }

    /// The in-flight command's write failed (for instance a broken pipe
    /// after the child exited): a pipeline-fatal condition. The pipeline
    /// goes down; nothing else changes, and in particular no further
    /// request will ever be accepted.
    pub fn record_write_failed(&mut self)
        requires
            old(self).wf(),
        ensures
            final(self).wf(),
            !final(self).is_up(),
            final(self).queue() == old(self).queue(),
            final(self).in_flight() == old(self).in_flight(),
            final(self).accepted_log() == old(self).accepted_log(),
            final(self).delivered_log() == old(self).delivered_log(),
            final(self).is_ingress_open() == old(self).is_ingress_open(),
    {
        self.up = false;
    }

    /// The producer side is gone: no command will ever be enqueued again.
    /// The writer will see `Disconnected` once the queue drains.
    pub fn close_ingress(&mut self)
        requires
            old(self).wf(),
        ensures
            final(self).wf(),
            !final(self).is_ingress_open(),
            final(self).queue() == old(self).queue(),
            final(self).in_flight() == old(self).in_flight(),
            final(self).accepted_log() == old(self).accepted_log(),
            final(self).delivered_log() == old(self).delivered_log(),
            final(self).is_up() == old(self).is_up(),
    {
        self.ingress_open = false;
    }

    /// How many commands are queued right now.
    pub fn queue_len(&self) -> (n: usize)
        ensures
            n == self.queue().len(),
    {
        self.pending.len()
    }

    /// Whether the pipeline is still up.
    pub fn pipeline_up(&self) -> (b: bool)
        ensures
            b == self.is_up(),
    {
        self.up
    }
}

/// FIFO preservation: in every well-formed pipeline state, the commands
/// delivered to the child's input are exactly the oldest accepted commands,
/// in their acceptance order — however many producers raced to enqueue them.
pub proof fn lemma_fifo(d: Dispatcher)
    requires
        d.wf(),
    ensures
        d.delivered_log().len() <= d.accepted_log().len(),
        d.delivered_log() == d.accepted_log().take(d.delivered_log().len() as int),
{
    assert(d.delivered_log() =~= d.accepted_log().take(d.delivered_log().len() as int));
}

/// The next command the writer can deliver is the oldest accepted command
/// not yet delivered or in flight: delivery can neither skip ahead nor
/// reorder.
pub proof fn lemma_next_in_order(d: Dispatcher)
    requires
        d.wf(),
        d.in_flight() is None,
        d.queue().len() > 0,
    ensures
        d.queue()[0] == d.accepted_log()[d.delivered_log().len() as int],
{
}

} // verus!
