//! The operations as a host binding calls them: arguments arrive in the form
//! in which they cross the language boundary and are decoded before the
//! operation runs.

use crate::error::{ProcessOutcome, StreamError};
use crate::lifecycle::{create_stream, process_data, process_data_loop, SessionLifecycle};
use crate::platform::{platform, platform_of, rust_release_mode, BuildTarget};
use crate::sink::FrameSink;
use vstd::prelude::*;

verus! {

/// A value in the form in which it crosses the language boundary, and how
/// it is decoded into the value that an operation takes.
pub trait Wire2Api<T>: Sized {
    /// Whether `value` is what this wire value stands for.
    spec fn decodes_to(self, value: T) -> bool;

    /// Decodes the wire value.
    fn wire2api(self) -> (value: T)
        ensures
            self.decodes_to(value),
    ;
}

impl Wire2Api<u32> for u32 {
    open spec fn decodes_to(self, value: u32) -> bool {
        value == self
    }

    fn wire2api(self) -> (value: u32) {
        self
    }
}

impl Wire2Api<u8> for u8 {
    open spec fn decodes_to(self, value: u8) -> bool {
        value == self
    }

    fn wire2api(self) -> (value: u8) {
        self
    }
}

impl Wire2Api<Vec<u8>> for Box<[u8]> {
    open spec fn decodes_to(self, value: Vec<u8>) -> bool {
        value@ == self@
    }

    fn wire2api(self) -> (value: Vec<u8>) {
        self.into_vec()
    }
}

/// The platform of a build target, as its host-side code.
pub fn wire_platform(target: BuildTarget) -> (code: i32)
    ensures
        code == platform_of(target).dart_code(),
{
    platform(target).into_dart()
}

/// Whether a build is a release build.
pub fn wire_rust_release_mode(debug_assertions: bool) -> (release: bool)
    ensures
        release == !debug_assertions,
{
    rust_release_mode(debug_assertions)
}

/// `create_stream` on arguments in wire form.
pub fn wire_create_stream(
    lifecycle: &mut SessionLifecycle,
    key: Box<[u8]>,
    iv: Box<[u8]>,
    chunk_size: u32,
    sink: FrameSink,
) -> (result: Result<(), StreamError>)
    requires
        old(lifecycle).wf(),
        sink.wf(),
    ensures
        final(lifecycle).wf(),
        match result {
            Ok(_) => old(lifecycle)@.create_stream_error(key@, iv@, chunk_size as nat, sink@)
                is None,
            Err(error) => old(lifecycle)@.create_stream_error(
                key@,
                iv@,
                chunk_size as nat,
                sink@,
            ) == Some(error),
        },
        final(lifecycle)@ == old(lifecycle)@.created(key@, iv@, chunk_size as nat, sink@),
{
    let api_key = key.wire2api();
    let api_iv = iv.wire2api();
    let api_chunk_size = chunk_size.wire2api();
    create_stream(lifecycle, api_key, api_iv, api_chunk_size, sink)
}

/// `process_data` on a chunk in wire form.
pub fn wire_process_data(lifecycle: &mut SessionLifecycle, data: Box<[u8]>) -> (result: Result<
    ProcessOutcome,
    StreamError,
>)
    requires
        old(lifecycle).wf(),
    ensures
        final(lifecycle).wf(),
        result == old(lifecycle)@.process_result(data@),
        final(lifecycle)@ == old(lifecycle)@.processed(data@),
{
    let api_data = data.wire2api();
    process_data(lifecycle, api_data)
}

/// `process_data_loop` on a count in wire form.
pub fn wire_process_data_loop(lifecycle: &mut SessionLifecycle, times: u32) -> (result: Result<
    (),
    StreamError,
>)
    requires
        old(lifecycle).wf(),
    ensures
        final(lifecycle).wf(),
        result == old(lifecycle)@.loop_result(times),
        final(lifecycle)@ == old(lifecycle)@.looped(times),
{
    let api_times = times.wire2api();
    process_data_loop(lifecycle, api_times)
}

} // verus!
