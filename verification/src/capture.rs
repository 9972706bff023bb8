//! The edge towards the capture source: the errors of a capture session, the
//! decisions of its waiting loops, and the decoding of a chunk of raw bytes
//! into samples. The session itself lives outside this crate, which sees
//! only what each turn of a loop observed.

use vstd::prelude::*;
use vstd::string::*;

verus! {

/// Why the monitor of the default output could not be found.
#[derive(Clone, Copy, Debug, PartialEq, Eq, Structural)]
pub enum GetMonitorError {
    MainLoopExited,
    NoDefaultSink,
    NoDefaultMonitor,
}

impl GetMonitorError {
    /// The text shown for this error.
    pub fn message(&self) -> (r: String)
        ensures
            r@ == match *self {
                GetMonitorError::MainLoopExited => "Mainloop terminated unexpectedly"@,
                GetMonitorError::NoDefaultSink => "No default output found"@,
                GetMonitorError::NoDefaultMonitor => "No monitor found for default output"@,
            },
    {
        match self {
            GetMonitorError::MainLoopExited => String::from_str("Mainloop terminated unexpectedly"),
            GetMonitorError::NoDefaultSink => String::from_str("No default output found"),
            GetMonitorError::NoDefaultMonitor => String::from_str(
                "No monitor found for default output",
            ),
        }
    }
}

/// Why a capture session could not be opened. A numeric field is the code
/// that the sound server gave.
#[derive(Clone, Copy, Debug, PartialEq, Eq, Structural)]
pub enum CreateError {
    MainLoopCreationFail,
    ContextCreateFail,
    ConnectionInitFail(i32),
    ConnectionFail,
    MonitorFail(GetMonitorError),
    MainLoopExited,
}

impl CreateError {
    /// The text shown for this error.
    pub fn message(&self) -> (r: String)
        ensures
            r@ == match *self {
                CreateError::MainLoopCreationFail => "Failed to create main loop"@,
                CreateError::ContextCreateFail => "Failed to create context"@,
                CreateError::ConnectionInitFail(_) => "Failed to initiate context connection"@,
                CreateError::ConnectionFail => "Failed to connect context"@,
                CreateError::MonitorFail(_) => "Failed to get monitor for default output"@,
                CreateError::MainLoopExited => "Main loop exited unexpectedly"@,
            },
    {
        match self {
            CreateError::MainLoopCreationFail => String::from_str("Failed to create main loop"),
            CreateError::ContextCreateFail => String::from_str("Failed to create context"),
            CreateError::ConnectionInitFail(_) => String::from_str(
                "Failed to initiate context connection",
            ),
            CreateError::ConnectionFail => String::from_str("Failed to connect context"),
            CreateError::MonitorFail(_) => String::from_str(
                "Failed to get monitor for default output",
            ),
            CreateError::MainLoopExited => String::from_str("Main loop exited unexpectedly"),
        }
    }
}

/// Why no chunk could be read. A numeric field is the code that the sound
/// server gave.
#[derive(Clone, Copy, Debug, PartialEq, Eq, Structural)]
pub enum ReadError {
    MainLoopExited,
    StreamReadError(i32),
}

impl ReadError {
    /// The text shown for this error.
    pub fn message(&self) -> (r: String)
        ensures
            r@ == match *self {
                ReadError::MainLoopExited => "Main loop exited unexpectedly"@,
                ReadError::StreamReadError(_) => "Error reading stream"@,
            },
    {
        match self {
            ReadError::MainLoopExited => String::from_str("Main loop exited unexpectedly"),
            ReadError::StreamReadError(_) => String::from_str("Error reading stream"),
        }
    }
}

/// The state of the connection to the sound server, as far as opening a
/// session depends on it.
#[derive(Clone, Copy, Debug, PartialEq, Eq, Structural)]
pub enum ContextPhase {
    Ready,
    Failed,
    Terminated,
    /// Any state on the way to `Ready`.
    Pending,
}

/// What a waiting loop does after one turn.
#[derive(Debug, PartialEq, Eq, Structural)]
pub enum Step<E> {
    /// Turn the loop once more.
    Again,
    /// What was waited for is there.
    Done,
    /// Give up with this error.
    Fail(E),
}

/// One turn of the wait for the connection: `loop_ok` says whether the main
/// loop ran, `phase` is the connection's state after it.
pub fn connect_step(loop_ok: bool, phase: ContextPhase) -> (r: Step<CreateError>)
    ensures
        r == if !loop_ok {
            Step::Fail(CreateError::MainLoopExited)
        } else {
            match phase {
                ContextPhase::Ready => Step::Done,
                ContextPhase::Failed | ContextPhase::Terminated => Step::Fail(
                    CreateError::ConnectionFail,
                ),
                ContextPhase::Pending => Step::Again,
            }
        },
{
    if !loop_ok {
        return Step::Fail(CreateError::MainLoopExited);
    }
    match phase {
        ContextPhase::Ready => Step::Done,
        ContextPhase::Failed | ContextPhase::Terminated => Step::Fail(CreateError::ConnectionFail),
        ContextPhase::Pending => Step::Again,
    }
}

/// One turn of the wait for the default output's name: `loop_ok` says whether
/// the main loop ran, `known` whether the name has arrived.
pub fn sink_step(loop_ok: bool, known: bool) -> (r: Step<GetMonitorError>)
    ensures
        r == if !loop_ok {
            Step::Fail(GetMonitorError::MainLoopExited)
        } else if known {
            Step::Done
        } else {
            Step::<GetMonitorError>::Again
        },
{
    if !loop_ok {
        Step::Fail(GetMonitorError::MainLoopExited)
    } else if known {
        Step::Done
    } else {
        Step::Again
    }
}

/// One turn of the wait for the monitor's name: `loop_ok` says whether the
/// main loop ran, `known` whether the name has arrived, `answered` whether
/// the query has ended. A query that ended without a name has failed.
pub fn monitor_step(loop_ok: bool, known: bool, answered: bool) -> (r: Step<GetMonitorError>)
    ensures
        r == if !loop_ok {
            Step::Fail(GetMonitorError::MainLoopExited)
        } else if known {
            Step::Done
        } else if answered {
            Step::Fail(GetMonitorError::NoDefaultMonitor)
        } else {
            Step::<GetMonitorError>::Again
        },
{
    if !loop_ok {
        Step::Fail(GetMonitorError::MainLoopExited)
    } else if known {
        Step::Done
    } else if answered {
        Step::Fail(GetMonitorError::NoDefaultMonitor)
    } else {
        Step::Again
    }
}

/// What one turn of the reading loop observed.
#[derive(Debug)]
pub enum ReadEvent {
    /// The main loop did not run.
    LoopExited,
    /// The stream is not ready to be read.
    NotReady,
    /// Looking into the stream failed with this code.
    PeekFailed(i32),
    /// The stream holds these bytes.
    Data(Vec<u8>),
    /// The stream holds nothing.
    Empty,
    /// The stream holds a gap.
    Hole,
}

/// What the reading loop does after one turn.
#[derive(Debug)]
pub enum ReadAction {
    /// Give up with this error.
    Fail(ReadError),
    /// Turn the loop once more.
    Again,
    /// Drop what the stream holds, then turn the loop once more.
    DiscardThenAgain,
    /// Drop what the stream holds, then hand out these samples.
    DiscardThenDeliver(Vec<i16>),
}

/// The sample that two bytes hold, low byte first, in two's complement.
pub open spec fn sample_of(low: u8, high: u8) -> int {
    if high < 128 {
        low + 256 * high
    } else {
        low + 256 * high - 65536
    }
}

/// The samples that a chunk of bytes holds: one for each pair of bytes.
pub open spec fn decoded(bytes: Seq<u8>) -> Seq<i16> {
    Seq::new(bytes.len() / 2, |i: int| sample_of(bytes[2 * i], bytes[2 * i + 1]) as i16)
}

/// Decodes a chunk of little-endian 16-bit signed samples.
pub fn decode_frame(bytes: &[u8]) -> (r: Vec<i16>)
    requires
        bytes@.len() % 2 == 0,
    ensures
        r@ == decoded(bytes@),
{
    let count = bytes.len() / 2;
    let mut out: Vec<i16> = Vec::new();
    let mut i: usize = 0;
    while i < count
        invariant
            i <= count,
            count * 2 == bytes@.len() <= usize::MAX,
            out@.len() == i,
            forall|k: int| 0 <= k < i ==> out@[k] == decoded(bytes@)[k],
        decreases count - i,
    {
        let low: i32 = bytes[2 * i] as i32;
        let high: i32 = bytes[2 * i + 1] as i32;
        let value: i32 = if high < 128 {
            low + 256 * high
        } else {
            low + 256 * high - 65536
        };
        out.push(value as i16);
        i += 1;
    }
    assert(out@ =~= decoded(bytes@));
    out
}

/// Whether `read_step` can take this event: a chunk of bytes must hold whole
/// samples.
pub open spec fn readable(event: ReadEvent) -> bool {
    event matches ReadEvent::Data(bytes) ==> bytes@.len() % 2 == 0
}

/// One turn of the reading loop. A main loop that did not run and a failed
/// look into the stream end the read with an error; a stream that is not
/// ready or holds nothing is tried again; a gap is dropped; bytes are decoded
/// and handed out.
pub fn read_step(event: ReadEvent) -> (r: ReadAction)
    requires
        readable(event),
    ensures
        match event {
            ReadEvent::LoopExited => r matches ReadAction::Fail(e) && e
                == ReadError::MainLoopExited,
            ReadEvent::NotReady => r is Again,
            ReadEvent::PeekFailed(code) => r matches ReadAction::Fail(e) && e
                == ReadError::StreamReadError(code),
            ReadEvent::Data(bytes) => r matches ReadAction::DiscardThenDeliver(samples)
                && samples@ == decoded(bytes@),
            ReadEvent::Empty => r is Again,
            ReadEvent::Hole => r is DiscardThenAgain,
        },
{
    match event {
        ReadEvent::LoopExited => ReadAction::Fail(ReadError::MainLoopExited),
        ReadEvent::NotReady => ReadAction::Again,
        ReadEvent::PeekFailed(code) => ReadAction::Fail(ReadError::StreamReadError(code)),
        ReadEvent::Data(bytes) => ReadAction::DiscardThenDeliver(decode_frame(bytes.as_slice())),
        ReadEvent::Empty => ReadAction::Again,
        ReadEvent::Hole => ReadAction::DiscardThenAgain,
    }
}

} // verus!
