//! A stream session: the key, the nonce prefix, the frame counter, the chunk
//! size and the sink of one stream, and the operations that move it on.
//!
//! The session is specified as a state machine over [`SessionView`]. Each
//! operation of [`Session`] is tied to one transition of that machine, and
//! the laws of the stream are proved about the machine.

use crate::aead::{seal, sealed};
use crate::cipher::{CipherSuite, KEY_LENGTH};
use crate::error::{ConfigurationError, ProcessOutcome, StreamError};
use crate::nonce::{derive_nonce, frame_nonce};
use crate::sink::{lemma_sink_stays_valid, FrameSink, SinkEvent, SinkView};
use vstd::prelude::*;

verus! {

/// The state of a session.
#[verifier::ext_equal]
pub struct SessionView {
    /// The cipher that seals the frames.
    pub suite: CipherSuite,
    /// The key; empty once the session is closed.
    pub key: Seq<u8>,
    /// The part of every nonce that the caller supplied.
    pub nonce_prefix: Seq<u8>,
    /// The length of every chunk but the last.
    pub chunk_size: nat,
    /// The number of frames sealed so far, and the counter of the next one.
    pub counter: nat,
    /// Whether the stream has ended.
    pub closed: bool,
    /// The sink that the frames go to.
    pub sink: SinkView,
}

/// What a frame handed to [`Session::commit`] holds, as a plain value.
pub open spec fn bytes_of(frame: Option<Vec<u8>>) -> Option<Seq<u8>> {
    match frame {
        Some(bytes) => Some(bytes@),
        None => None,
    }
}

/// Why a session cannot be made from these values, if it cannot. The checks
/// come in a fixed order: key, nonce prefix, chunk size, sink.
pub open spec fn create_error(
    suite: CipherSuite,
    key: Seq<u8>,
    nonce_prefix: Seq<u8>,
    chunk_size: nat,
    sink: SinkView,
) -> Option<StreamError> {
    if key.len() != KEY_LENGTH {
        Some(StreamError::Configuration(ConfigurationError::InvalidKeyLength))
    } else if nonce_prefix.len() != suite.spec_nonce_prefix_length() {
        Some(StreamError::Configuration(ConfigurationError::InvalidNonceLength))
    } else if chunk_size == 0 {
        Some(StreamError::Configuration(ConfigurationError::InvalidChunkSize))
    } else if sink.closed {
        Some(StreamError::SinkUnavailable)
    } else {
        None
    }
}

impl SessionView {
    /// The invariant of a session. An open session holds a key of the right
    /// length and an open sink; a closed one holds no key and a closed sink.
    pub open spec fn wf(self) -> bool {
        &&& self.sink.wf()
        &&& 0 < self.chunk_size <= u32::MAX
        &&& self.counter <= u32::MAX
        &&& self.nonce_prefix.len() == self.suite.spec_nonce_prefix_length()
        &&& self.closed ==> self.key.len() == 0 && self.sink.closed
        &&& !self.closed ==> self.key.len() == KEY_LENGTH && !self.sink.closed
    }

    /// The session that `create` makes: open, with the counter at zero.
    pub open spec fn initial(
        suite: CipherSuite,
        key: Seq<u8>,
        nonce_prefix: Seq<u8>,
        chunk_size: nat,
        sink: SinkView,
    ) -> SessionView {
        SessionView { suite, key, nonce_prefix, chunk_size, counter: 0, closed: false, sink }
    }

    /// The session after it was closed: the key is gone and the sink is
    /// closed. The counter and the frames that wait in the sink stay.
    pub open spec fn shut(self) -> SessionView {
        SessionView { key: Seq::empty(), closed: true, sink: self.sink.shut(), ..self }
    }

    /// The session after the consumer cancelled the stream: closed like a
    /// session that was shut, with the frames that waited thrown away.
    pub open spec fn cancelled(self) -> SessionView {
        SessionView { key: Seq::empty(), closed: true, sink: self.sink.cancelled(), ..self }
    }

    /// Whether a chunk ends the stream: every chunk that is not exactly one
    /// chunk size long does.
    pub open spec fn is_last(self, chunk: Seq<u8>) -> bool {
        chunk.len() != self.chunk_size
    }

    /// The nonce of the next frame.
    pub open spec fn next_nonce(self, last: bool) -> Seq<u8> {
        frame_nonce(self.nonce_prefix, self.counter, last)
    }

    /// The frame that the session seals a chunk into, in its present state.
    pub open spec fn next_frame(self, chunk: Seq<u8>) -> Option<Seq<u8>> {
        sealed(self.suite, self.key, self.next_nonce(self.is_last(chunk)), chunk)
    }

    /// What `commit` reports for a frame as it came from the cipher.
    pub open spec fn commit_result(self, frame: Option<Seq<u8>>, last: bool) -> Result<
        ProcessOutcome,
        StreamError,
    > {
        if self.closed {
            Err(StreamError::SessionClosed)
        } else if self.counter >= u32::MAX {
            Err(StreamError::CounterExhausted)
        } else if !self.sink.has_room() {
            Err(StreamError::SinkUnavailable)
        } else if frame is None {
            Err(StreamError::EncryptionFailure)
        } else if last {
            Ok(ProcessOutcome::StreamClosed)
        } else {
            Ok(ProcessOutcome::FrameEmitted)
        }
    }

    /// The session after `commit`. A frame is queued and counted in one
    /// step or not at all; a failure that cannot be retried closes the
    /// session.
    pub open spec fn committed(self, frame: Option<Seq<u8>>, last: bool) -> SessionView {
        match self.commit_result(frame, last) {
            Ok(outcome) => {
                let advanced = SessionView {
                    counter: self.counter + 1,
                    sink: self.sink.pushed(frame->0),
                    ..self
                };
                if outcome == ProcessOutcome::StreamClosed {
                    advanced.shut()
                } else {
                    advanced
                }
            },
            Err(StreamError::CounterExhausted) | Err(StreamError::EncryptionFailure) => self.shut(),
            Err(_) => self,
        }
    }

    /// What `process` reports for a chunk.
    pub open spec fn process_result(self, chunk: Seq<u8>) -> Result<ProcessOutcome, StreamError> {
        if self.closed {
            Err(StreamError::SessionClosed)
        } else if chunk.len() == 0 {
            Ok(ProcessOutcome::StreamClosed)
        } else {
            self.commit_result(self.next_frame(chunk), self.is_last(chunk))
        }
    }

    /// The session after `process`.
    pub open spec fn processed(self, chunk: Seq<u8>) -> SessionView {
        if self.closed {
            self
        } else if chunk.len() == 0 {
            self.shut()
        } else {
            self.committed(self.next_frame(chunk), self.is_last(chunk))
        }
    }

    /// The session after the consumer took the next event from its sink.
    pub open spec fn drained(self) -> SessionView {
        SessionView { sink: self.sink.taken(), ..self }
    }

    /// The first error that comes up when the chunks are processed one
    /// after the other, if any does.
    pub open spec fn first_error(self, chunks: Seq<Seq<u8>>) -> Option<StreamError>
        decreases chunks.len(),
    {
        if chunks.len() == 0 {
            None
        } else {
            match self.first_error(chunks.drop_last()) {
                Some(error) => Some(error),
                None => match self.run(chunks.drop_last()).process_result(chunks.last()) {
                    Ok(_) => None,
                    Err(error) => Some(error),
                },
            }
        }
    }

    /// What a driver reports that processes the chunks one after the other
    /// and stops at the first error.
    pub open spec fn run_result(self, chunks: Seq<Seq<u8>>) -> Result<(), StreamError> {
        match self.first_error(chunks) {
            Some(error) => Err(error),
            None => Ok(()),
        }
    }

    /// The session after the chunks were processed one after the other, up
    /// to and including the first one that gave an error.
    pub open spec fn run(self, chunks: Seq<Seq<u8>>) -> SessionView
        decreases chunks.len(),
    {
        if chunks.len() == 0 {
            self
        } else if self.first_error(chunks.drop_last()) is Some {
            self.run(chunks.drop_last())
        } else {
            self.run(chunks.drop_last()).processed(chunks.last())
        }
    }
}

/// A chunk of zero bytes.
pub open spec fn zero_chunk(length: nat) -> Seq<u8> {
    Seq::new(length, |i: int| 0u8)
}

/// The same chunk, `times` times.
pub open spec fn repeated(chunk: Seq<u8>, times: nat) -> Seq<Seq<u8>> {
    Seq::new(times, |i: int| chunk)
}

/// Processing a chunk keeps a valid session valid, and leaves its cipher, its
/// nonce prefix and its chunk size as they are; the counter never goes back.
pub proof fn lemma_processed_keeps(s: SessionView, chunk: Seq<u8>)
    requires
        s.wf(),
    ensures
        s.processed(chunk).wf(),
        s.processed(chunk).suite == s.suite,
        s.processed(chunk).nonce_prefix == s.nonce_prefix,
        s.processed(chunk).chunk_size == s.chunk_size,
        s.processed(chunk).counter >= s.counter,
{
    let frame = s.next_frame(chunk)->0;
    lemma_sink_stays_valid(s.sink, frame);
    if s.sink.has_room() {
        lemma_sink_stays_valid(s.sink.pushed(frame), frame);
    }
}

/// A run keeps a valid session valid, and leaves its cipher, its nonce
/// prefix and its chunk size as they are; the counter never goes back.
pub proof fn lemma_run_keeps(s: SessionView, chunks: Seq<Seq<u8>>)
    requires
        s.wf(),
    ensures
        s.run(chunks).wf(),
        s.run(chunks).suite == s.suite,
        s.run(chunks).nonce_prefix == s.nonce_prefix,
        s.run(chunks).chunk_size == s.chunk_size,
        s.run(chunks).counter >= s.counter,
    decreases chunks.len(),
{
    if chunks.len() > 0 {
        lemma_run_keeps(s, chunks.drop_last());
        lemma_processed_keeps(s.run(chunks.drop_last()), chunks.last());
    }
}

/// How one more chunk moves a run on: `run` and `first_error` of the first
/// `k + 1` chunks, from those of the first `k`.
pub proof fn lemma_run_next(s: SessionView, chunks: Seq<Seq<u8>>, k: int)
    requires
        0 <= k < chunks.len(),
    ensures
        s.first_error(chunks.take(k)) is Some ==> {
            &&& s.run(chunks.take(k + 1)) == s.run(chunks.take(k))
            &&& s.first_error(chunks.take(k + 1)) == s.first_error(chunks.take(k))
        },
        s.first_error(chunks.take(k)) is None ==> {
            &&& s.run(chunks.take(k + 1)) == s.run(chunks.take(k)).processed(chunks[k])
            &&& s.first_error(chunks.take(k + 1)) == match s.run(chunks.take(k)).process_result(
                chunks[k],
            ) {
                Ok(_) => None,
                Err(error) => Some(error),
            }
        },
{
    let next = chunks.take(k + 1);
    assert(next.drop_last() =~= chunks.take(k));
}

/// Once a chunk has given an error, the chunks that follow change nothing.
pub proof fn lemma_run_stops_at_error(s: SessionView, chunks: Seq<Seq<u8>>, k: int)
    requires
        0 <= k <= chunks.len(),
        s.first_error(chunks.take(k)) is Some,
    ensures
        s.first_error(chunks) == s.first_error(chunks.take(k)),
        s.run(chunks) == s.run(chunks.take(k)),
    decreases chunks.len(),
{
    if k == chunks.len() {
        assert(chunks.take(k) =~= chunks);
    } else {
        assert(chunks.drop_last().take(k) =~= chunks.take(k));
        lemma_run_stops_at_error(s, chunks.drop_last(), k);
    }
}

/// One stream: its secrets, its counter and its sink.
pub struct Session {
    suite: CipherSuite,
    key: Vec<u8>,
    nonce_prefix: Vec<u8>,
    chunk_size: u32,
    counter: u32,
    closed: bool,
    sink: FrameSink,
}

impl View for Session {
    type V = SessionView;

    closed spec fn view(&self) -> SessionView {
        SessionView {
            suite: self.suite,
            key: self.key@,
            nonce_prefix: self.nonce_prefix@,
            chunk_size: self.chunk_size as nat,
            counter: self.counter as nat,
            closed: self.closed,
            sink: self.sink@,
        }
    }
}

impl Session {
    /// The invariant of every session that [`Session::create`] made.
    pub open spec fn wf(&self) -> bool {
        self@.wf()
    }

    /// Sets up a stream. The key must be 32 bytes long, the nonce prefix as
    /// long as the cipher asks for (7 or 19 bytes), the chunk size positive
    /// and the sink open.
    pub fn create(
        suite: CipherSuite,
        key: Vec<u8>,
        nonce_prefix: Vec<u8>,
        chunk_size: u32,
        sink: FrameSink,
    ) -> (result: Result<Session, StreamError>)
        requires
            sink.wf(),
        ensures
            match result {
                Ok(session) => {
                    &&& create_error(suite, key@, nonce_prefix@, chunk_size as nat, sink@) is None
                    &&& session@ == SessionView::initial(
                        suite,
                        key@,
                        nonce_prefix@,
                        chunk_size as nat,
                        sink@,
                    )
                    &&& session.wf()
                },
                Err(error) => create_error(suite, key@, nonce_prefix@, chunk_size as nat, sink@)
                    == Some(error),
            },
    {
        if key.len() != KEY_LENGTH {
            return Err(StreamError::Configuration(ConfigurationError::InvalidKeyLength));
        }
        if nonce_prefix.len() != suite.nonce_prefix_length() {
            return Err(StreamError::Configuration(ConfigurationError::InvalidNonceLength));
        }
        if chunk_size == 0 {
            return Err(StreamError::Configuration(ConfigurationError::InvalidChunkSize));
        }
        if sink.is_closed() {
            return Err(StreamError::SinkUnavailable);
        }
        Ok(Session { suite, key, nonce_prefix, chunk_size, counter: 0, closed: false, sink })
    }

    /// Whether the stream has ended.
    pub fn is_closed(&self) -> (closed: bool)
        ensures
            closed == self@.closed,
    {
        self.closed
    }

    /// The number of frames sealed so far, which is the counter of the next.
    pub fn counter(&self) -> (counter: u32)
        ensures
            counter == self@.counter,
    {
        self.counter
    }

    /// The length of every chunk but the last.
    pub fn chunk_size(&self) -> (chunk_size: u32)
        ensures
            chunk_size == self@.chunk_size,
    {
        self.chunk_size
    }

    /// The cipher of the stream.
    pub fn suite(&self) -> (suite: CipherSuite)
        ensures
            suite == self@.suite,
    {
        self.suite
    }

    /// How many frames wait in the sink.
    pub fn pending(&self) -> (count: usize)
        ensures
            count == self@.sink.frames.len(),
    {
        self.sink.pending()
    }

    /// Ends the stream: drops the key and closes the sink.
    fn shut(&mut self)
        requires
            old(self).wf(),
        ensures
            final(self)@ == old(self)@.shut(),
            final(self).wf(),
    {
        self.closed = true;
        self.key = Vec::new();
        self.sink.close();
    }

    /// Closes the session. Closing a closed session changes nothing.
    pub fn close(&mut self)
        requires
            old(self).wf(),
        ensures
            final(self).wf(),
            final(self)@ == old(self)@.shut(),
            old(self)@.closed ==> final(self)@ == old(self)@,
    {
        if !self.closed {
            self.shut();
        }
    }

    /// Cancels the stream, for a consumer that takes no more: the session
    /// is closed, and the frames that wait in the sink are thrown away.
    pub fn cancel(&mut self)
        requires
            old(self).wf(),
        ensures
            final(self).wf(),
            final(self)@ == old(self)@.cancelled(),
    {
        self.closed = true;
        self.key = Vec::new();
        self.sink.cancel();
    }

    /// Accounts for one frame as it came from the cipher, `None` standing
    /// for the cipher's error. While the session is open, the counter is
    /// not used up and the sink has room, a frame is queued and counted; a
    /// last frame also ends the stream. The caller vouches that the frame
    /// was sealed under [`SessionView::next_nonce`].
    pub fn commit(&mut self, frame: Option<Vec<u8>>, last: bool) -> (result: Result<
        ProcessOutcome,
        StreamError,
    >)
        requires
            old(self).wf(),
        ensures
            final(self).wf(),
            result == old(self)@.commit_result(bytes_of(frame), last),
            final(self)@ == old(self)@.committed(bytes_of(frame), last),
    {
        if self.closed {
            return Err(StreamError::SessionClosed);
        }
        if self.counter == u32::MAX {
            self.shut();
            return Err(StreamError::CounterExhausted);
        }
        if !self.sink.has_room() {
            return Err(StreamError::SinkUnavailable);
        }
        match frame {
            None => {
                self.shut();
                Err(StreamError::EncryptionFailure)
            },
            Some(bytes) => {
                self.sink.push(bytes);
                self.counter = self.counter + 1;
                if last {
                    self.shut();
                    Ok(ProcessOutcome::StreamClosed)
                } else {
                    Ok(ProcessOutcome::FrameEmitted)
                }
            },
        }
    }

    /// Processes one chunk.
    ///
    /// A chunk of exactly one chunk size is sealed under the next counter
    /// and queued on the sink. An empty chunk ends the stream. A chunk of any
    /// other length is the last one: it is sealed with the last-frame flag
    /// set, queued, and the stream ends. A frame is 16 bytes longer than
    /// its chunk.
    pub fn process(&mut self, chunk: &[u8]) -> (result: Result<ProcessOutcome, StreamError>)
        requires
            old(self).wf(),
        ensures
            final(self).wf(),
            result == old(self)@.process_result(chunk@),
            final(self)@ == old(self)@.processed(chunk@),
    {
        if self.closed {
            return Err(StreamError::SessionClosed);
        }
        if chunk.len() == 0 {
            self.shut();
            return Ok(ProcessOutcome::StreamClosed);
        }
        let last = chunk.len() != self.chunk_size as usize;
        let frame = if self.counter < u32::MAX && self.sink.has_room() {
            let nonce = derive_nonce(self.nonce_prefix.as_slice(), self.counter, last);
            seal(self.suite, self.key.as_slice(), nonce.as_slice(), chunk)
        } else {
            None
        };
        self.commit(frame, last)
    }

    /// Processes `times` chunks of zero bytes, each one chunk size long,
    /// and stops at the first error.
    pub fn process_zero_chunks(&mut self, times: u32) -> (result: Result<(), StreamError>)
        requires
            old(self).wf(),
        ensures
            final(self).wf(),
            final(self)@ == old(self)@.run(
                repeated(zero_chunk(old(self)@.chunk_size), times as nat),
            ),
            result == old(self)@.run_result(
                repeated(zero_chunk(old(self)@.chunk_size), times as nat),
            ),
    {
        let chunk: Vec<u8> = vec![0u8; self.chunk_size as usize];
        let ghost start = self@;
        let ghost chunks = repeated(zero_chunk(start.chunk_size), times as nat);
        let mut done: u32 = 0;
        while done < times
            invariant
                done <= times,
                self.wf(),
                start == old(self)@,
                chunks == repeated(zero_chunk(start.chunk_size), times as nat),
                chunk@ == zero_chunk(start.chunk_size),
                self@ == start.run(chunks.take(done as int)),
                start.first_error(chunks.take(done as int)) is None,
            decreases times - done,
        {
            proof {
                lemma_run_next(start, chunks, done as int);
            }
            match self.process(chunk.as_slice()) {
                Ok(_) => {},
                Err(error) => {
                    proof {
                        lemma_run_stops_at_error(start, chunks, done + 1);
                    }
                    return Err(error);
                },
            }
            done = done + 1;
        }
        assert(chunks.take(times as int) =~= chunks);
        Ok(())
    }

    /// Takes the next event from the sink, for the consumer: the oldest
    /// waiting frame, or, once, the end of the stream.
    pub fn take(&mut self) -> (event: Option<SinkEvent>)
        requires
            old(self).wf(),
        ensures
            final(self).wf(),
            final(self)@ == old(self)@.drained(),
            match event {
                Some(e) => old(self)@.sink.next_event() == Some(e@),
                None => old(self)@.sink.next_event() is None,
            },
    {
        self.sink.take()
    }
}

} // verus!
