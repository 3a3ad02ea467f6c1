//! The frame sink: an ordered, bounded channel from the session that seals
//! frames to the consumer that takes them.
//!
//! Frames leave in the order in which they were accepted. The producer may
//! close the sink once; the consumer learns of it once, after the last frame.

use std::collections::VecDeque;
use vstd::prelude::*;

verus! {

/// What a consumer takes from a sink.
#[derive(Debug)]
pub enum SinkEvent {
    /// The oldest frame that had not been taken yet.
    Frame(Vec<u8>),
    /// The stream has ended: every frame was taken and none will follow.
    Close,
}

/// What a [`SinkEvent`] holds, as a plain value.
pub enum SinkEventView {
    Frame(Seq<u8>),
    Close,
}

impl View for SinkEvent {
    type V = SinkEventView;

    open spec fn view(&self) -> SinkEventView {
        match self {
            SinkEvent::Frame(bytes) => SinkEventView::Frame(bytes@),
            SinkEvent::Close => SinkEventView::Close,
        }
    }
}

/// The state of a sink.
pub struct SinkView {
    /// Every frame that the sink has accepted since it was made, oldest
    /// first: those that were taken, those that were thrown away, and those
    /// that wait.
    pub accepted: Seq<Seq<u8>>,
    /// The frames that wait to be taken, oldest first.
    pub frames: Seq<Seq<u8>>,
    /// How many frames the sink holds at most.
    pub capacity: nat,
    /// Whether the producer has closed the sink.
    pub closed: bool,
    /// Whether the consumer has been told that the sink is closed.
    pub close_delivered: bool,
}

impl SinkView {
    /// A sink never holds more frames than its capacity, the frames that
    /// wait are the newest of those it accepted, and the consumer is told of
    /// the end only when the sink is closed and empty.
    pub open spec fn wf(self) -> bool {
        &&& self.frames.len() <= self.capacity
        &&& self.frames.len() <= self.accepted.len()
        &&& self.frames == self.accepted.skip(self.accepted.len() - self.frames.len())
        &&& self.close_delivered ==> self.closed && self.frames.len() == 0
    }

    /// Whether the sink accepts one more frame.
    pub open spec fn has_room(self) -> bool {
        !self.closed && self.frames.len() < self.capacity
    }

    /// The sink after it accepted a frame.
    pub open spec fn pushed(self, frame: Seq<u8>) -> SinkView {
        SinkView {
            accepted: self.accepted.push(frame),
            frames: self.frames.push(frame),
            ..self
        }
    }

    /// The sink after the producer closed it.
    pub open spec fn shut(self) -> SinkView {
        SinkView { closed: true, ..self }
    }

    /// The sink after the consumer cancelled the stream: closed, with the
    /// frames that waited thrown away and nothing left to be told.
    pub open spec fn cancelled(self) -> SinkView {
        SinkView { frames: Seq::empty(), closed: true, close_delivered: true, ..self }
    }

    /// What the consumer takes next, if anything.
    pub open spec fn next_event(self) -> Option<SinkEventView> {
        if self.frames.len() > 0 {
            Some(SinkEventView::Frame(self.frames[0]))
        } else if self.closed && !self.close_delivered {
            Some(SinkEventView::Close)
        } else {
            None
        }
    }

    /// The sink after the consumer took what [`Self::next_event`] offers.
    pub open spec fn taken(self) -> SinkView {
        if self.frames.len() > 0 {
            SinkView { frames: self.frames.drop_first(), ..self }
        } else if self.closed {
            SinkView { close_delivered: true, ..self }
        } else {
            self
        }
    }
}

impl SinkView {
    /// The sink after the consumer took from it `times` times.
    pub open spec fn taken_times(self, times: nat) -> SinkView
        decreases times,
    {
        if times == 0 {
            self
        } else {
            self.taken_times((times - 1) as nat).taken()
        }
    }
}

/// Whatever happens to a valid sink leaves it valid.
pub proof fn lemma_sink_stays_valid(sink: SinkView, frame: Seq<u8>)
    requires
        sink.wf(),
    ensures
        sink.has_room() ==> sink.pushed(frame).wf(),
        sink.shut().wf(),
        sink.taken().wf(),
        sink.cancelled().wf(),
{
    let pushed = sink.pushed(frame);
    assert(pushed.frames =~= pushed.accepted.skip(pushed.accepted.len() - pushed.frames.len()));
    let taken = sink.taken();
    assert(taken.frames =~= taken.accepted.skip(taken.accepted.len() - taken.frames.len()));
    let cancelled = sink.cancelled();
    assert(cancelled.frames =~= cancelled.accepted.skip(cancelled.accepted.len() as int));
}

/// A bounded first-in, first-out queue of frames with an end-of-stream mark.
pub struct FrameSink {
    queue: VecDeque<Vec<u8>>,
    accepted: Ghost<Seq<Seq<u8>>>,
    capacity: usize,
    closed: bool,
    close_delivered: bool,
}

impl View for FrameSink {
    type V = SinkView;

    closed spec fn view(&self) -> SinkView {
        SinkView {
            accepted: self.accepted@,
            frames: self.queue.deep_view(),
            capacity: self.capacity as nat,
            closed: self.closed,
            close_delivered: self.close_delivered,
        }
    }
}

impl FrameSink {
    /// The invariant of every sink that [`FrameSink::new`] made.
    pub open spec fn wf(&self) -> bool {
        self@.wf()
    }

    /// An open, empty sink that holds up to `capacity` frames.
    pub fn new(capacity: usize) -> (sink: FrameSink)
        ensures
            sink@ == (SinkView {
                accepted: Seq::empty(),
                frames: Seq::empty(),
                capacity: capacity as nat,
                closed: false,
                close_delivered: false,
            }),
            sink.wf(),
    {
        let sink = FrameSink {
            queue: VecDeque::new(),
            accepted: Ghost(Seq::empty()),
            capacity,
            closed: false,
            close_delivered: false,
        };
        assert(sink.queue.deep_view() =~= Seq::<Seq<u8>>::empty());
        assert(sink@.frames =~= sink@.accepted.skip(0));
        sink
    }

    /// Whether the producer has closed the sink.
    pub fn is_closed(&self) -> (closed: bool)
        ensures
            closed == self@.closed,
    {
        self.closed
    }

    /// Whether the sink accepts one more frame.
    pub fn has_room(&self) -> (room: bool)
        ensures
            room == self@.has_room(),
    {
        !self.closed && self.queue.len() < self.capacity
    }

    /// How many frames wait to be taken.
    pub fn pending(&self) -> (count: usize)
        ensures
            count == self@.frames.len(),
    {
        self.queue.len()
    }

    /// How many frames the sink holds at most.
    pub fn capacity(&self) -> (capacity: usize)
        ensures
            capacity == self@.capacity,
    {
        self.capacity
    }

    /// Offers a frame to the sink. The frame is accepted, behind all frames
    /// accepted before, if the sink is open and not full; otherwise it is
    /// dropped and the sink does not change.
    pub fn push(&mut self, frame: Vec<u8>) -> (accepted: bool)
        ensures
            accepted == old(self)@.has_room(),
            accepted ==> final(self)@ == old(self)@.pushed(frame@),
            !accepted ==> final(self)@ == old(self)@,
            old(self).wf() ==> final(self).wf(),
    {
        if self.closed || self.queue.len() >= self.capacity {
            return false;
        }
        let ghost before = self@;
        assert(frame.deep_view() =~= frame@);
        self.accepted = Ghost(self.accepted@.push(frame@));
        self.queue.push_back(frame);
        assert(self.queue.deep_view() =~= before.frames.push(frame@));
        proof {
            if before.wf() {
                lemma_sink_stays_valid(before, frame@);
            }
        }
        true
    }

    /// Closes the sink: no frame is accepted from now on. Returns whether
    /// this call closed it; closing a closed sink changes nothing.
    pub fn close(&mut self) -> (signalled: bool)
        ensures
            signalled == !old(self)@.closed,
            final(self)@ == old(self)@.shut(),
            old(self).wf() ==> final(self).wf(),
    {
        let signalled = !self.closed;
        self.closed = true;
        signalled
    }

    /// Cancels the stream, for a consumer that takes no more: the sink is
    /// closed, and the frames that wait are thrown away.
    pub fn cancel(&mut self)
        ensures
            final(self)@ == old(self)@.cancelled(),
            old(self).wf() ==> final(self).wf(),
    {
        self.queue.clear();
        self.closed = true;
        self.close_delivered = true;
        assert(self.queue.deep_view() =~= Seq::<Seq<u8>>::empty());
        proof {
            if old(self).wf() {
                lemma_sink_stays_valid(old(self)@, Seq::empty());
            }
        }
    }

    /// Takes the next event: the oldest waiting frame; or, once, the end of
    /// the stream, when the sink is closed and no frame waits; or nothing.
    pub fn take(&mut self) -> (event: Option<SinkEvent>)
        ensures
            match event {
                Some(e) => old(self)@.next_event() == Some(e@),
                None => old(self)@.next_event() is None,
            },
            final(self)@ == old(self)@.taken(),
            old(self).wf() ==> final(self).wf(),
    {
        let ghost before = self@;
        match self.queue.pop_front() {
            Some(frame) => {
                assert(frame.deep_view() =~= frame@);
                assert(self.queue.deep_view() =~= before.frames.drop_first());
                proof {
                    if before.wf() {
                        lemma_sink_stays_valid(before, frame@);
                    }
                }
                Some(SinkEvent::Frame(frame))
            },
            None => {
                if self.closed && !self.close_delivered {
                    self.close_delivered = true;
                    Some(SinkEvent::Close)
                } else {
                    None
                }
            },
        }
    }
}

} // verus!
