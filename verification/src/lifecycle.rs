//! The lifecycle of the one stream that is in flight: nothing set up yet, a
//! session set up, and the operations that a driver calls on it.
//!
//! At most one session is active at a time. Setting up a stream while one
//! is active is refused; the active one has to be closed first.

use crate::cipher::CipherSuite;
use crate::error::{ProcessOutcome, StreamError};
use crate::session::{
    create_error, lemma_run_keeps, repeated, zero_chunk, Session, SessionView,
};
use crate::sink::{FrameSink, SinkEvent, SinkEventView, SinkView};
use vstd::prelude::*;

verus! {

/// The state of a lifecycle.
#[verifier::ext_equal]
pub struct LifecycleView {
    /// The cipher of every stream of this lifecycle.
    pub suite: CipherSuite,
    /// The session that was set up last, if any was.
    pub session: Option<SessionView>,
}

impl LifecycleView {
    /// The invariant of a lifecycle: its session, if it has one, is valid
    /// and uses the cipher of the lifecycle.
    pub open spec fn wf(self) -> bool {
        self.session matches Some(session) ==> session.wf() && session.suite == self.suite
    }

    /// Whether a stream is in flight: a session is set up and not closed.
    pub open spec fn is_active(self) -> bool {
        self.session matches Some(session) && !session.closed
    }

    /// Why `create_stream` does not set up a stream from these values, if it
    /// does not. A value that no stream can be set up from is reported
    /// before a stream that is still active.
    pub open spec fn create_stream_error(
        self,
        key: Seq<u8>,
        iv: Seq<u8>,
        chunk_size: nat,
        sink: SinkView,
    ) -> Option<StreamError> {
        match create_error(self.suite, key, iv, chunk_size, sink) {
            Some(error) => Some(error),
            None => if self.is_active() {
                Some(StreamError::SessionAlreadyActive)
            } else {
                None
            },
        }
    }

    /// The lifecycle with its session replaced.
    pub open spec fn with_session(self, session: SessionView) -> LifecycleView {
        LifecycleView { session: Some(session), ..self }
    }

    /// The lifecycle after `create_stream`: with a new session, or, where
    /// that is refused, as it was.
    pub open spec fn created(
        self,
        key: Seq<u8>,
        iv: Seq<u8>,
        chunk_size: nat,
        sink: SinkView,
    ) -> LifecycleView {
        if self.create_stream_error(key, iv, chunk_size, sink) is None {
            self.with_session(SessionView::initial(self.suite, key, iv, chunk_size, sink))
        } else {
            self
        }
    }

    /// What `process_data` reports for a chunk.
    pub open spec fn process_result(self, data: Seq<u8>) -> Result<ProcessOutcome, StreamError> {
        match self.session {
            Some(session) => session.process_result(data),
            None => Err(StreamError::SessionNotInitialized),
        }
    }

    /// The lifecycle after `process_data`.
    pub open spec fn processed(self, data: Seq<u8>) -> LifecycleView {
        match self.session {
            Some(session) => self.with_session(session.processed(data)),
            None => self,
        }
    }

    /// What `close` and `cancel` report: there is a session to close, or
    /// there is none.
    pub open spec fn close_result(self) -> Result<(), StreamError> {
        match self.session {
            Some(_) => Ok(()),
            None => Err(StreamError::SessionNotInitialized),
        }
    }

    /// The lifecycle after `close`: with its session closed.
    pub open spec fn shut(self) -> LifecycleView {
        match self.session {
            Some(session) => self.with_session(session.shut()),
            None => self,
        }
    }

    /// The lifecycle after `cancel`: with its session cancelled.
    pub open spec fn cancelled(self) -> LifecycleView {
        match self.session {
            Some(session) => self.with_session(session.cancelled()),
            None => self,
        }
    }

    /// What the consumer takes next from the sink of the session, if
    /// anything.
    pub open spec fn next_event(self) -> Option<SinkEventView> {
        match self.session {
            Some(session) => session.sink.next_event(),
            None => None,
        }
    }

    /// The lifecycle after the consumer took the next event.
    pub open spec fn drained(self) -> LifecycleView {
        match self.session {
            Some(session) => self.with_session(session.drained()),
            None => self,
        }
    }

    /// The chunks that `process_data_loop` processes: `times` chunks of
    /// zero bytes, each one chunk size long.
    pub open spec fn loop_chunks(self, times: u32) -> Seq<Seq<u8>> {
        match self.session {
            Some(session) => repeated(zero_chunk(session.chunk_size), times as nat),
            None => Seq::empty(),
        }
    }

    /// What `process_data_loop` reports: the first error, if there is one.
    pub open spec fn loop_result(self, times: u32) -> Result<(), StreamError> {
        match self.session {
            Some(session) => session.run_result(self.loop_chunks(times)),
            None => Err(StreamError::SessionNotInitialized),
        }
    }

    /// The lifecycle after `process_data_loop`.
    pub open spec fn looped(self, times: u32) -> LifecycleView {
        match self.session {
            Some(session) => self.with_session(session.run(self.loop_chunks(times))),
            None => self,
        }
    }
}

/// Holds the one session that may be in flight.
pub struct SessionLifecycle {
    suite: CipherSuite,
    session: Option<Session>,
}

impl View for SessionLifecycle {
    type V = LifecycleView;

    closed spec fn view(&self) -> LifecycleView {
        LifecycleView {
            suite: self.suite,
            session: match self.session {
                Some(session) => Some(session@),
                None => None,
            },
        }
    }
}

impl SessionLifecycle {
    /// The invariant of every lifecycle that [`SessionLifecycle::new`] made.
    pub open spec fn wf(&self) -> bool {
        self@.wf()
    }

    /// A lifecycle for streams of one cipher, with no session set up.
    pub fn new(suite: CipherSuite) -> (lifecycle: SessionLifecycle)
        ensures
            lifecycle@ == (LifecycleView { suite, session: None }),
            lifecycle.wf(),
    {
        SessionLifecycle { suite, session: None }
    }

    /// Whether a stream is in flight.
    pub fn is_active(&self) -> (active: bool)
        ensures
            active == self@.is_active(),
    {
        match &self.session {
            Some(session) => !session.is_closed(),
            None => false,
        }
    }

    /// Whether a session has been set up, open or closed.
    pub fn is_initialized(&self) -> (initialized: bool)
        ensures
            initialized == self@.session is Some,
    {
        self.session.is_some()
    }

    /// The number of frames that the session has sealed, if one is set up.
    pub fn frames_sealed(&self) -> (count: Option<u32>)
        ensures
            match self@.session {
                Some(session) => count matches Some(n) && n == session.counter,
                None => count is None,
            },
    {
        match &self.session {
            Some(session) => Some(session.counter()),
            None => None,
        }
    }

    /// Closes the session. Closing a closed session changes nothing; with
    /// no session set up there is nothing to close.
    pub fn close(&mut self) -> (result: Result<(), StreamError>)
        requires
            old(self).wf(),
        ensures
            final(self).wf(),
            result == old(self)@.close_result(),
            final(self)@ == old(self)@.shut(),
    {
        match &mut self.session {
            Some(session) => {
                session.close();
                Ok(())
            },
            None => Err(StreamError::SessionNotInitialized),
        }
    }

    /// Cancels the stream, for a consumer that takes no more, as
    /// [`Session::cancel`] does. With no session set up there is nothing to
    /// cancel.
    pub fn cancel(&mut self) -> (result: Result<(), StreamError>)
        requires
            old(self).wf(),
        ensures
            final(self).wf(),
            result == old(self)@.close_result(),
            final(self)@ == old(self)@.cancelled(),
    {
        match &mut self.session {
            Some(session) => {
                session.cancel();
                Ok(())
            },
            None => Err(StreamError::SessionNotInitialized),
        }
    }

    /// Takes the next event from the sink of the session, for the consumer.
    pub fn take(&mut self) -> (event: Option<SinkEvent>)
        requires
            old(self).wf(),
        ensures
            final(self).wf(),
            final(self)@ == old(self)@.drained(),
            match event {
                Some(e) => old(self)@.next_event() == Some(e@),
                None => old(self)@.next_event() is None,
            },
    {
        match &mut self.session {
            Some(session) => session.take(),
            None => None,
        }
    }
}

/// Sets up the stream of a lifecycle: a session with the counter at zero.
///
/// Fails, and changes nothing, if no session can be made from the values
/// (see [`Session::create`]) or if a stream is still active. A session that
/// is closed is replaced.
pub fn create_stream(
    lifecycle: &mut SessionLifecycle,
    key: Vec<u8>,
    iv: Vec<u8>,
    chunk_size: u32,
    sink: FrameSink,
) -> (result: Result<(), StreamError>)
    requires
        old(lifecycle).wf(),
        sink.wf(),
    ensures
        final(lifecycle).wf(),
        match result {
            Ok(_) => old(lifecycle)@.create_stream_error(key@, iv@, chunk_size as nat, sink@)
                is None,
            Err(error) => old(lifecycle)@.create_stream_error(
                key@,
                iv@,
                chunk_size as nat,
                sink@,
            ) == Some(error),
        },
        final(lifecycle)@ == old(lifecycle)@.created(key@, iv@, chunk_size as nat, sink@),
{
    match Session::create(lifecycle.suite, key, iv, chunk_size, sink) {
        Err(error) => Err(error),
        Ok(session) => {
            if lifecycle.is_active() {
                Err(StreamError::SessionAlreadyActive)
            } else {
                lifecycle.session = Some(session);
                Ok(())
            }
        },
    }
}

/// Processes one chunk on the session of a lifecycle, as
/// [`Session::process`] does. Fails with `SessionNotInitialized` if no
/// session has been set up.
pub fn process_data(lifecycle: &mut SessionLifecycle, data: Vec<u8>) -> (result: Result<
    ProcessOutcome,
    StreamError,
>)
    requires
        old(lifecycle).wf(),
    ensures
        final(lifecycle).wf(),
        result == old(lifecycle)@.process_result(data@),
        final(lifecycle)@ == old(lifecycle)@.processed(data@),
{
    match &mut lifecycle.session {
        Some(session) => session.process(data.as_slice()),
        None => Err(StreamError::SessionNotInitialized),
    }
}

/// Processes `times` chunks of zero bytes, each one chunk size long, on the
/// session of a lifecycle, and stops at the first error. Fails with
/// `SessionNotInitialized` if no session has been set up.
pub fn process_data_loop(lifecycle: &mut SessionLifecycle, times: u32) -> (result: Result<
    (),
    StreamError,
>)
    requires
        old(lifecycle).wf(),
    ensures
        final(lifecycle).wf(),
        result == old(lifecycle)@.loop_result(times),
        final(lifecycle)@ == old(lifecycle)@.looped(times),
{
    match &mut lifecycle.session {
        Some(session) => {
            proof {
                lemma_run_keeps(
                    session@,
                    repeated(zero_chunk(session@.chunk_size), times as nat),
                );
            }
            session.process_zero_chunks(times)
        },
        None => Err(StreamError::SessionNotInitialized),
    }
}

} // verus!
