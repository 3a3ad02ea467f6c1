//! Laws of the stream, proved about the state machine of
//! [`SessionView`](crate::session::SessionView) that every operation of a
//! session follows.

use crate::aead::sealed;
use crate::cipher::{CipherSuite, KEY_LENGTH, TAG_LENGTH};
use crate::error::{ConfigurationError, ProcessOutcome, StreamError};
use crate::lifecycle::LifecycleView;
use crate::nonce::{frame_nonce, lemma_frame_nonce_injective};
use crate::session::{create_error, lemma_processed_keeps, lemma_run_keeps, SessionView};
use crate::sink::{lemma_sink_stays_valid, SinkEventView, SinkView};
use vstd::prelude::*;

verus! {

/// What a producer and a consumer do to a session, one thing at a time: the
/// producer through `process` and `close`, the consumer through `take` and
/// `cancel`.
pub enum SessionEvent {
    /// The producer offers a chunk.
    Process(Seq<u8>),
    /// The consumer takes the next event from the sink.
    Take,
    /// The producer closes the session.
    Close,
    /// The consumer cancels the stream.
    Cancel,
}

impl SessionView {
    /// The session after an event.
    pub open spec fn after(self, event: SessionEvent) -> SessionView {
        match event {
            SessionEvent::Process(chunk) => self.processed(chunk),
            SessionEvent::Take => self.drained(),
            SessionEvent::Close => self.shut(),
            SessionEvent::Cancel => self.cancelled(),
        }
    }

    /// The session after a history of events.
    pub open spec fn after_all(self, events: Seq<SessionEvent>) -> SessionView
        decreases events.len(),
    {
        if events.len() == 0 {
            self
        } else {
            self.after_all(events.drop_last()).after(events.last())
        }
    }

    /// The chunks that became frames in a history of events, in order:
    /// those chunks that held something and were processed without an error.
    pub open spec fn sealed_chunks(self, events: Seq<SessionEvent>) -> Seq<Seq<u8>>
        decreases events.len(),
    {
        if events.len() == 0 {
            Seq::empty()
        } else {
            let before = self.sealed_chunks(events.drop_last());
            match events.last() {
                SessionEvent::Process(chunk) => if chunk.len() > 0 && self.after_all(
                    events.drop_last(),
                ).process_result(chunk) is Ok {
                    before.push(chunk)
                } else {
                    before
                },
                _ => before,
            }
        }
    }
}

/// Every frame is sealed under the counter that counts it. Whatever a
/// producer and a consumer do to a session, and in whatever order, the
/// frames that its sink accepts are the chunks that were sealed, in their
/// order: chunk `i` of them under the counter `i` places after the one the
/// session started with, which is zero for a new session. Only the last of
/// them can be other than one chunk size long, and it alone carries the
/// last-frame flag. Nothing that the sink had accepted before is changed.
pub proof fn law_every_frame_under_its_counter(s: SessionView, events: Seq<SessionEvent>)
    requires
        s.wf(),
    ensures
        s.after_all(events).wf(),
        s.after_all(events).suite == s.suite,
        s.after_all(events).nonce_prefix == s.nonce_prefix,
        s.after_all(events).chunk_size == s.chunk_size,
        !s.after_all(events).closed ==> !s.closed && s.after_all(events).key == s.key,
        s.after_all(events).counter == s.counter + s.sealed_chunks(events).len(),
        s.after_all(events).sink.accepted.len() == s.sink.accepted.len() + s.sealed_chunks(
            events,
        ).len(),
        forall|i: int|
            0 <= i < s.sink.accepted.len() ==> #[trigger] s.after_all(events).sink.accepted[i]
                == s.sink.accepted[i],
        forall|i: int|
            0 <= i < s.sealed_chunks(events).len() ==> sealed(
                s.suite,
                s.key,
                frame_nonce(
                    s.nonce_prefix,
                    (s.counter + i) as nat,
                    s.sealed_chunks(events)[i].len() != s.chunk_size,
                ),
                #[trigger] s.sealed_chunks(events)[i],
            ) == Some(s.after_all(events).sink.accepted[s.sink.accepted.len() + i]),
        forall|i: int|
            0 <= i < s.sealed_chunks(events).len() - 1 ==> (#[trigger] s.sealed_chunks(
                events,
            )[i]).len() == s.chunk_size,
        !s.after_all(events).closed ==> forall|i: int|
            0 <= i < s.sealed_chunks(events).len() ==> (#[trigger] s.sealed_chunks(
                events,
            )[i]).len() == s.chunk_size,
    decreases events.len(),
{
    if events.len() > 0 {
        let head = events.drop_last();
        let t = s.after_all(head);
        law_every_frame_under_its_counter(s, head);
        lemma_sink_stays_valid(t.sink, Seq::empty());
        match events.last() {
            SessionEvent::Process(chunk) => {
                lemma_processed_keeps(t, chunk);
            },
            _ => {},
        }
    }
}

/// The frames of a stream: what a session with this key, nonce prefix and
/// chunk size, whose next counter is `first`, seals the chunks into, provided
/// that every one of them is processed. An empty chunk gives no frame; every
/// other chunk gives one, sealed under the counter that follows the one
/// before, with the last-frame flag set unless it is exactly one chunk size
/// long.
pub open spec fn stream_frames(
    suite: CipherSuite,
    key: Seq<u8>,
    nonce_prefix: Seq<u8>,
    chunk_size: nat,
    first: nat,
    chunks: Seq<Seq<u8>>,
) -> Seq<Seq<u8>>
    decreases chunks.len(),
{
    if chunks.len() == 0 {
        Seq::empty()
    } else {
        let before = stream_frames(
            suite,
            key,
            nonce_prefix,
            chunk_size,
            first,
            chunks.drop_last(),
        );
        let chunk = chunks.last();
        if chunk.len() == 0 {
            before
        } else {
            before.push(
                sealed(
                    suite,
                    key,
                    frame_nonce(nonce_prefix, first + before.len(), chunk.len() != chunk_size),
                    chunk,
                )->0,
            )
        }
    }
}

/// A run without an error appends the frames of the stream to the sink, in
/// order, and counts each of them.
pub proof fn lemma_run_appends_stream_frames(s: SessionView, chunks: Seq<Seq<u8>>)
    requires
        s.wf(),
        s.first_error(chunks) is None,
    ensures
        s.run(chunks).wf(),
        s.run(chunks).sink.frames == s.sink.frames + stream_frames(
            s.suite,
            s.key,
            s.nonce_prefix,
            s.chunk_size,
            s.counter,
            chunks,
        ),
        s.run(chunks).counter == s.counter + stream_frames(
            s.suite,
            s.key,
            s.nonce_prefix,
            s.chunk_size,
            s.counter,
            chunks,
        ).len(),
        s.run(chunks).suite == s.suite,
        s.run(chunks).nonce_prefix == s.nonce_prefix,
        s.run(chunks).chunk_size == s.chunk_size,
        !s.run(chunks).closed ==> s.run(chunks).key == s.key,
    decreases chunks.len(),
{
    lemma_run_keeps(s, chunks);
    if chunks.len() > 0 {
        lemma_run_appends_stream_frames(s, chunks.drop_last());
    }
}

/// The counter counts the frames. When a session processes chunks of
/// exactly one chunk size and every one of them is sealed, chunk `i` becomes
/// the frame sealed under the counter `i` places after the one the session
/// started with, without the last-frame flag, and the counter has advanced
/// by the number of chunks. The frames that waited in the sink before stay
/// where they were.
pub proof fn law_counter_monotonicity(s: SessionView, chunks: Seq<Seq<u8>>)
    requires
        s.wf(),
        forall|i: int| 0 <= i < chunks.len() ==> (#[trigger] chunks[i]).len() == s.chunk_size,
        s.first_error(chunks) is None,
    ensures
        s.run(chunks).counter == s.counter + chunks.len(),
        s.run(chunks).sink.frames.len() == s.sink.frames.len() + chunks.len(),
        forall|i: int|
            0 <= i < s.sink.frames.len() ==> #[trigger] s.run(chunks).sink.frames[i]
                == s.sink.frames[i],
        forall|i: int|
            0 <= i < chunks.len() ==> sealed(
                s.suite,
                s.key,
                frame_nonce(s.nonce_prefix, (s.counter + i) as nat, false),
                #[trigger] chunks[i],
            ) == Some(s.run(chunks).sink.frames[s.sink.frames.len() + i]),
    decreases chunks.len(),
{
    lemma_run_appends_stream_frames(s, chunks);
    if chunks.len() > 0 {
        let head = chunks.drop_last();
        law_counter_monotonicity(s, head);
        lemma_run_appends_stream_frames(s, head);
        assert forall|i: int| 0 <= i < chunks.len() implies sealed(
            s.suite,
            s.key,
            frame_nonce(s.nonce_prefix, (s.counter + i) as nat, false),
            #[trigger] chunks[i],
        ) == Some(s.run(chunks).sink.frames[s.sink.frames.len() + i]) by {
            if i < head.len() {
                assert(head[i] == chunks[i]);
            }
        }
    }
}

/// A new session starts with counter zero: of the full chunks that it
/// processes, chunk `i` becomes the frame sealed under counter `i`.
pub proof fn law_counter_monotonicity_from_start(
    suite: CipherSuite,
    key: Seq<u8>,
    nonce_prefix: Seq<u8>,
    chunk_size: nat,
    sink: SinkView,
    chunks: Seq<Seq<u8>>,
)
    requires
        sink.wf(),
        chunk_size <= u32::MAX,
        create_error(suite, key, nonce_prefix, chunk_size, sink) is None,
        forall|i: int| 0 <= i < chunks.len() ==> (#[trigger] chunks[i]).len() == chunk_size,
        SessionView::initial(suite, key, nonce_prefix, chunk_size, sink).first_error(chunks)
            is None,
    ensures
        forall|i: int|
            0 <= i < chunks.len() ==> sealed(
                suite,
                key,
                frame_nonce(nonce_prefix, i as nat, false),
                #[trigger] chunks[i],
            ) == Some(
                SessionView::initial(suite, key, nonce_prefix, chunk_size, sink).run(
                    chunks,
                ).sink.frames[sink.frames.len() + i],
            ),
        SessionView::initial(suite, key, nonce_prefix, chunk_size, sink).run(chunks).counter
            == chunks.len(),
{
    law_counter_monotonicity(
        SessionView::initial(suite, key, nonce_prefix, chunk_size, sink),
        chunks,
    );
}

/// The frames depend on nothing but the key, the nonce prefix and the
/// chunks. Two sessions with the same cipher, key, nonce prefix, chunk
/// size and counter that process the same chunks, each without an error,
/// append the same frames to their sinks, byte for byte and in the same
/// order, whatever their sinks held before.
pub proof fn law_determinism(a: SessionView, b: SessionView, chunks: Seq<Seq<u8>>)
    requires
        a.wf(),
        b.wf(),
        a.suite == b.suite,
        a.key == b.key,
        a.nonce_prefix == b.nonce_prefix,
        a.chunk_size == b.chunk_size,
        a.counter == b.counter,
        a.first_error(chunks) is None,
        b.first_error(chunks) is None,
    ensures
        a.run(chunks).sink.frames.skip(a.sink.frames.len() as int) == b.run(
            chunks,
        ).sink.frames.skip(b.sink.frames.len() as int),
        a.run(chunks).counter == b.run(chunks).counter,
        a.run(chunks).closed == b.run(chunks).closed,
{
    lemma_run_appends_stream_frames(a, chunks);
    lemma_run_appends_stream_frames(b, chunks);
    lemma_run_closed_alike(a, b, chunks);
}

/// The frames do not depend on timing either. Two sessions with the same
/// cipher, key, nonce prefix, chunk size and counter whose histories differ
/// in when the consumer took, how often a full sink refused a chunk, or
/// what was tried after the end, but in which the same chunks were sealed,
/// have had the same frames accepted by their sinks.
pub proof fn law_determinism_across_histories(
    a: SessionView,
    history_a: Seq<SessionEvent>,
    b: SessionView,
    history_b: Seq<SessionEvent>,
)
    requires
        a.wf(),
        b.wf(),
        a.suite == b.suite,
        a.key == b.key,
        a.nonce_prefix == b.nonce_prefix,
        a.chunk_size == b.chunk_size,
        a.counter == b.counter,
        a.sealed_chunks(history_a) == b.sealed_chunks(history_b),
    ensures
        a.after_all(history_a).sink.accepted.skip(a.sink.accepted.len() as int) == b.after_all(
            history_b,
        ).sink.accepted.skip(b.sink.accepted.len() as int),
        a.after_all(history_a).counter == b.after_all(history_b).counter,
{
    law_every_frame_under_its_counter(a, history_a);
    law_every_frame_under_its_counter(b, history_b);
    let chunks = a.sealed_chunks(history_a);
    let frames_a = a.after_all(history_a).sink.accepted.skip(a.sink.accepted.len() as int);
    let frames_b = b.after_all(history_b).sink.accepted.skip(b.sink.accepted.len() as int);
    assert forall|i: int| 0 <= i < chunks.len() implies frames_a[i] == frames_b[i] by {
        let frame = sealed(
            a.suite,
            a.key,
            frame_nonce(a.nonce_prefix, (a.counter + i) as nat, chunks[i].len() != a.chunk_size),
            chunks[i],
        );
        assert(frame == Some(frames_a[i]));
        assert(frame == Some(frames_b[i]));
    }
    assert(frames_a =~= frames_b);
}

/// Whether a run without an error ends closed depends on the chunks and the
/// chunk size alone.
proof fn lemma_run_closed_alike(a: SessionView, b: SessionView, chunks: Seq<Seq<u8>>)
    requires
        a.wf(),
        b.wf(),
        a.chunk_size == b.chunk_size,
        a.closed == b.closed,
        a.first_error(chunks) is None,
        b.first_error(chunks) is None,
    ensures
        a.run(chunks).closed == b.run(chunks).closed,
    decreases chunks.len(),
{
    if chunks.len() > 0 {
        lemma_run_closed_alike(a, b, chunks.drop_last());
        lemma_run_appends_stream_frames(a, chunks.drop_last());
        lemma_run_appends_stream_frames(b, chunks.drop_last());
    }
}

/// No nonce is used twice. Whatever happens to a session, two different
/// frames of it are sealed under different nonces, whatever their last-frame
/// flags: frame `i` is sealed under the counter `i` places after the one the
/// session started with, and no counter wraps around.
pub proof fn law_nonces_never_repeat(
    s: SessionView,
    events: Seq<SessionEvent>,
    i: int,
    last_i: bool,
    j: int,
    last_j: bool,
)
    requires
        s.wf(),
        0 <= i < j < s.sealed_chunks(events).len(),
    ensures
        s.counter + j < u32::MAX,
        frame_nonce(s.nonce_prefix, (s.counter + i) as nat, last_i) != frame_nonce(
            s.nonce_prefix,
            (s.counter + j) as nat,
            last_j,
        ),
{
    law_every_frame_under_its_counter(s, events);
    if frame_nonce(s.nonce_prefix, (s.counter + i) as nat, last_i) == frame_nonce(
        s.nonce_prefix,
        (s.counter + j) as nat,
        last_j,
    ) {
        lemma_frame_nonce_injective(
            s.nonce_prefix,
            (s.counter + i) as nat,
            last_i,
            (s.counter + j) as nat,
            last_j,
        );
    }
}

/// A frame is 16 bytes longer than the chunk it was sealed from.
pub proof fn law_frame_length(s: SessionView, chunk: Seq<u8>)
    requires
        s.wf(),
        s.process_result(chunk) is Ok,
        chunk.len() > 0,
    ensures
        s.processed(chunk).sink.frames.len() == s.sink.frames.len() + 1,
        s.processed(chunk).sink.frames.last().len() == chunk.len() + TAG_LENGTH,
{
}

/// A frame is queued and counted in one step, or neither happens: after a
/// chunk is processed, the counter and the number of frames in the sink have
/// both gone up by one, or both are as they were. They go up exactly when
/// a chunk that holds something is processed without an error.
pub proof fn law_count_and_queue_move_together(s: SessionView, chunk: Seq<u8>)
    requires
        s.wf(),
    ensures
        s.processed(chunk).wf(),
        s.process_result(chunk) is Ok && chunk.len() > 0 ==> {
            &&& s.processed(chunk).counter == s.counter + 1
            &&& s.processed(chunk).sink.frames == s.sink.frames.push(s.next_frame(chunk)->0)
        },
        !(s.process_result(chunk) is Ok && chunk.len() > 0) ==> {
            &&& s.processed(chunk).counter == s.counter
            &&& s.processed(chunk).sink.frames == s.sink.frames
        },
{
    lemma_processed_keeps(s, chunk);
}

/// A chunk that the sink has no room for, or that comes after the end of
/// the stream, changes nothing: it can be offered again, and will then be
/// sealed under the counter it would have had the first time.
pub proof fn law_refusal_changes_nothing(s: SessionView, chunk: Seq<u8>)
    requires
        s.wf(),
        s.process_result(chunk) == Err::<ProcessOutcome, StreamError>(StreamError::SinkUnavailable)
            || s.process_result(chunk) == Err::<ProcessOutcome, StreamError>(
            StreamError::SessionClosed,
        ),
    ensures
        s.processed(chunk) == s,
{
}

/// An error that is not a refusal ends the stream, and so does every chunk
/// that is not exactly one chunk size long. After the end, every chunk is
/// answered with `SessionClosed`.
pub proof fn law_end_of_stream(s: SessionView, chunk: Seq<u8>, later: Seq<u8>)
    requires
        s.wf(),
        !s.closed,
    ensures
        s.process_result(chunk) == Err::<ProcessOutcome, StreamError>(
            StreamError::CounterExhausted,
        ) <==> chunk.len() > 0 && s.counter == u32::MAX,
        s.processed(chunk).closed <==> {
            ||| chunk.len() == 0
            ||| s.process_result(chunk) == Ok::<ProcessOutcome, StreamError>(
                ProcessOutcome::StreamClosed,
            )
            ||| s.process_result(chunk) == Err::<ProcessOutcome, StreamError>(
                StreamError::CounterExhausted,
            )
            ||| s.process_result(chunk) == Err::<ProcessOutcome, StreamError>(
                StreamError::EncryptionFailure,
            )
        },
        s.processed(chunk).closed ==> s.processed(chunk).process_result(later) == Err::<
            ProcessOutcome,
            StreamError,
        >(StreamError::SessionClosed),
{
}

/// Ending a stream twice is ending it once. Closing a session twice leaves
/// it as closing it once does, and so does ending the stream twice with an
/// empty chunk: the second call finds the sink closed and signals nothing.
pub proof fn law_termination_idempotence(s: SessionView)
    requires
        s.wf(),
    ensures
        s.shut().wf(),
        s.shut().shut() == s.shut(),
        s.shut().sink.closed,
        s.shut().sink.shut() == s.shut().sink,
        s.processed(Seq::empty()).processed(Seq::empty()) == s.processed(Seq::empty()),
        s.processed(Seq::empty()).sink.closed,
        s.processed(Seq::empty()).shut() == s.processed(Seq::empty()),
        !s.closed ==> s.processed(Seq::empty()) == s.shut(),
{
}

/// A consumer that cancels a stream ends it for good: the session is closed,
/// its sink offers nothing any more and accepts nothing, every chunk is
/// answered with `SessionClosed`, and closing or cancelling again changes
/// nothing.
pub proof fn law_cancellation_is_final(s: SessionView, chunk: Seq<u8>)
    requires
        s.wf(),
    ensures
        s.cancelled().wf(),
        s.cancelled().closed,
        s.cancelled().counter == s.counter,
        s.cancelled().sink.next_event() is None,
        !s.cancelled().sink.has_room(),
        s.cancelled().drained() == s.cancelled(),
        s.cancelled().process_result(chunk) == Err::<ProcessOutcome, StreamError>(
            StreamError::SessionClosed,
        ),
        s.cancelled().processed(chunk) == s.cancelled(),
        s.cancelled().shut() == s.cancelled(),
        s.cancelled().cancelled() == s.cancelled(),
{
    lemma_sink_stays_valid(s.sink, chunk);
}

/// The consumer is told of the end of the stream once. When the sink
/// offers the end of the stream and it is taken, the sink offers nothing
/// from then on, and closing it again does not change that.
pub proof fn law_close_is_delivered_once(sink: SinkView)
    requires
        sink.wf(),
        sink.next_event() == Some(SinkEventView::Close),
    ensures
        sink.taken().wf(),
        sink.taken().next_event() is None,
        sink.taken().taken() == sink.taken(),
        sink.taken().shut() == sink.taken(),
        !sink.taken().has_room(),
{
}

/// A consumer that keeps taking gets every waiting frame, in the order in
/// which the frames were accepted: the take after `k` others offers frame
/// `k`. From a closed sink it then gets the end of the stream, and after that
/// nothing.
pub proof fn law_frames_leave_in_order(sink: SinkView, k: nat)
    requires
        sink.wf(),
        k <= sink.frames.len(),
    ensures
        sink.taken_times(k).wf(),
        sink.taken_times(k).accepted == sink.accepted,
        sink.taken_times(k).frames == sink.frames.skip(k as int),
        sink.taken_times(k).closed == sink.closed,
        sink.taken_times(k).close_delivered == sink.close_delivered,
        k < sink.frames.len() ==> sink.taken_times(k).next_event() == Some(
            SinkEventView::Frame(sink.frames[k as int]),
        ),
        k == sink.frames.len() && sink.closed && !sink.close_delivered ==> {
            &&& sink.taken_times(k).next_event() == Some(SinkEventView::Close)
            &&& sink.taken_times(k + 1).next_event() is None
        },
        k == sink.frames.len() && !sink.closed ==> sink.taken_times(k).next_event() is None,
    decreases k,
{
    reveal_with_fuel(SinkView::taken_times, 2);
    if k > 0 {
        law_frames_leave_in_order(sink, (k - 1) as nat);
        lemma_sink_stays_valid(sink.taken_times((k - 1) as nat), Seq::empty());
    }
}

/// A frame that a sink accepts goes behind the frames that wait: taking
/// first and then pushing gives the same sink as pushing first and then
/// taking. A frame that an empty sink accepts is the next to be taken.
pub proof fn law_sink_keeps_order(sink: SinkView, frame: Seq<u8>)
    requires
        sink.wf(),
        sink.has_room(),
    ensures
        sink.pushed(frame).wf(),
        sink.frames.len() > 0 ==> sink.pushed(frame).next_event() == sink.next_event(),
        sink.frames.len() > 0 ==> sink.pushed(frame).taken() == sink.taken().pushed(frame),
        sink.frames.len() == 0 ==> sink.pushed(frame).next_event() == Some(
            SinkEventView::Frame(frame),
        ),
        sink.frames.len() == 0 ==> sink.pushed(frame).taken().frames == sink.frames,
{
    lemma_sink_stays_valid(sink, frame);
    if sink.frames.len() > 0 {
        assert(sink.pushed(frame).taken().frames =~= sink.taken().pushed(frame).frames);
    }
}

/// One stream at a time. While a stream is active, setting up another is
/// refused and the lifecycle stays as it was; once the stream has ended, a
/// new one takes its place and starts with counter zero.
pub proof fn law_one_stream_at_a_time(
    lifecycle: LifecycleView,
    key: Seq<u8>,
    iv: Seq<u8>,
    chunk_size: nat,
    sink: SinkView,
)
    requires
        lifecycle.wf(),
        sink.wf(),
        chunk_size <= u32::MAX,
        create_error(lifecycle.suite, key, iv, chunk_size, sink) is None,
    ensures
        lifecycle.created(key, iv, chunk_size, sink).wf(),
        lifecycle.is_active() ==> {
            &&& lifecycle.create_stream_error(key, iv, chunk_size, sink) == Some(
                StreamError::SessionAlreadyActive,
            )
            &&& lifecycle.created(key, iv, chunk_size, sink) == lifecycle
        },
        !lifecycle.is_active() ==> {
            &&& lifecycle.create_stream_error(key, iv, chunk_size, sink) is None
            &&& lifecycle.created(key, iv, chunk_size, sink).is_active()
            &&& lifecycle.created(key, iv, chunk_size, sink).session == Some(
                SessionView::initial(lifecycle.suite, key, iv, chunk_size, sink),
            )
        },
{
}

/// A key that is not exactly 32 bytes long is refused
/// as a configuration error, whatever else is given, and no session is
/// activated: the lifecycle stays as it was.
pub proof fn law_wrong_key_length_is_rejected(
    lifecycle: LifecycleView,
    key: Seq<u8>,
    iv: Seq<u8>,
    chunk_size: nat,
    sink: SinkView,
)
    requires
        key.len() != KEY_LENGTH,
    ensures
        lifecycle.create_stream_error(key, iv, chunk_size, sink) == Some(
            StreamError::Configuration(ConfigurationError::InvalidKeyLength),
        ),
        lifecycle.created(key, iv, chunk_size, sink) == lifecycle,
{
}

} // verus!
