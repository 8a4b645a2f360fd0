//! The serial transport: one connection, one reader, one receive buffer.
//!
//! Every operation is a step function. The program hands it what the host
//! last reported and gets back what to ask of the host next, or the
//! operation's result. A single step is indivisible, since it takes the
//! manager by exclusive reference: appending a chunk and taking a frame out
//! of the buffer is one step. A whole read is several steps with calls to the
//! host between them (`Start`, then `ReaderAcquired`, then the chunk). The
//! manager therefore records that a read has begun, and answers `Wait` to
//! another that wants to begin before the first is over; likewise it records
//! that a drain loop is alive, and launches no second one.

use vstd::prelude::*;
use vstd::string::*;
use vstd::utf8::*;
use crate::error::SerialError;
use crate::frame::{after_first_frame, first_frame, take_frame};
use crate::kenwood::{
    mode_form, mode_form_of, mode_plan, mode_steps, query_plan, query_steps, tune_plan,
    tune_steps, vfo_plan, vfo_steps, DriverStep, DriverStepView, Vfo,
};
use crate::range::{FrequencyRange, TuneError};
use crate::text::{chunk_text, decode_chunk};

verus! {

/// What a `SerialManager` stands for.
pub struct SerialState {
    /// A port is open.
    pub connected: bool,
    /// A reader is attached to the port's input stream.
    pub reader: bool,
    /// Text received and not yet delivered as a frame.
    pub pending: Seq<char>,
    /// The background drain is meant to keep running.
    pub draining: bool,
    /// A drain loop was launched and has not yet been told to stop: it is
    /// reading, asleep between two turns, or about to take its next turn.
    pub loop_alive: bool,
    /// A read has begun and is not yet over.
    pub reading: bool,
}

/// What the host reported to a read in progress.
#[derive(Debug, PartialEq, Eq)]
pub enum ReadEvent {
    /// A read is wanted. `readable` tells whether the open port exposes an
    /// input stream; it is not looked at while no port is open.
    Start { readable: bool },
    /// The reader that was asked for is now attached to the input stream.
    ReaderAcquired,
    /// The input stream gave no reader.
    ReaderRefused,
    /// The reader delivered these bytes.
    Chunk(Vec<u8>),
    /// The reader reported the end of the stream, without data.
    Closed,
    /// The read failed.
    Failed,
}

/// What a read in progress needs next.
#[derive(Debug, PartialEq, Eq)]
pub enum ReadStep {
    /// Attach a reader to the input stream, then report `ReaderAcquired` or
    /// `ReaderRefused`.
    AcquireReader,
    /// Read once from the attached reader, then report `Chunk`, `Closed` or
    /// `Failed`.
    Read,
    /// Another read is under way. Wait until it is over, then begin again
    /// with `Start`.
    Wait,
    /// The read is over. `Ok` holds the first complete frame, or nothing
    /// while no frame is complete.
    Done(Result<String, SerialError>),
}

/// A `ReadStep` with its text as a sequence of characters.
pub enum ReadStepView {
    AcquireReader,
    Read,
    Wait,
    Done(Result<Seq<char>, SerialError>),
}

impl View for ReadStep {
    type V = ReadStepView;

    open spec fn view(&self) -> ReadStepView {
        match *self {
            ReadStep::AcquireReader => ReadStepView::AcquireReader,
            ReadStep::Read => ReadStepView::Read,
            ReadStep::Wait => ReadStepView::Wait,
            ReadStep::Done(Ok(frame)) => ReadStepView::Done(Ok(frame@)),
            ReadStep::Done(Err(error)) => ReadStepView::Done(Err(error)),
        }
    }
}

/// What the host reported to a connection attempt in progress.
#[derive(Debug, Clone, Copy, PartialEq, Eq)]
pub enum ConnectEvent {
    /// A connection is wanted. `serial_available` tells whether the host
    /// exposes serial access at all.
    Start { serial_available: bool },
    /// The user picked a port.
    PortSelected,
    /// The user picked none, or the host would not offer any.
    PortRefused,
    /// The picked port is open.
    Opened,
    /// The picked port could not be opened.
    OpenFailed,
}

/// What a connection attempt in progress needs next.
#[derive(Debug, Clone, Copy, PartialEq, Eq)]
pub enum ConnectStep {
    /// Let the user pick a port, then report `PortSelected` or `PortRefused`.
    RequestPort,
    /// Open the picked port at this rate, then report `Opened` or
    /// `OpenFailed`.
    OpenPort { baud_rate: u32 },
    /// The attempt is over.
    Done(Result<(), SerialError>),
}

/// What the host reported to a write in progress.
#[derive(Debug, Clone, Copy, PartialEq, Eq)]
pub enum WriteEvent {
    /// A write is wanted. `writable` tells whether the open port exposes an
    /// output stream; it is not looked at while no port is open.
    Start { writable: bool },
    /// The bytes went out and the writer is released.
    Written,
    /// Taking the writer, writing or releasing it failed.
    Failed,
}

/// What a write in progress needs next.
#[derive(Debug, PartialEq, Eq)]
pub enum WriteStep {
    /// Take a writer on the output stream, write these bytes, release the
    /// writer, then report `Written` or `Failed`.
    Transmit(Vec<u8>),
    /// The write is over. No response is awaited.
    Done(Result<(), SerialError>),
}

/// A `WriteStep` with its bytes as a sequence.
pub enum WriteStepView {
    Transmit(Seq<u8>),
    Done(Result<(), SerialError>),
}

impl View for WriteStep {
    type V = WriteStepView;

    open spec fn view(&self) -> WriteStepView {
        match *self {
            WriteStep::Transmit(bytes) => WriteStepView::Transmit(bytes@),
            WriteStep::Done(result) => WriteStepView::Done(result),
        }
    }
}

/// One thing that the host has to release when a connection is given up.
/// Failures of these releases are of no interest and are not reported back.
#[derive(Debug, Clone, Copy, PartialEq, Eq)]
pub enum Release {
    /// Cancel the attached reader and release its lock.
    CancelReader,
    /// Close the open port.
    ClosePort,
}

/// What the background drain does next.
#[derive(Debug, Clone, Copy, PartialEq, Eq)]
pub enum DrainStep {
    /// Read once, whatever comes of it, sleep for `pause_ms` milliseconds, and
    /// ask again.
    Poll { pause_ms: u32 },
    /// End the loop, and do not ask again.
    Stop,
}

/// The pause between two reads of the background drain, in milliseconds.
pub const DRAIN_PAUSE_MS: u32 = 100;

impl SerialState {
    /// Nothing is open, attached, pending or running.
    pub open spec fn initial() -> SerialState {
        SerialState {
            connected: false,
            reader: false,
            pending: Seq::empty(),
            draining: false,
            loop_alive: false,
            reading: false,
        }
    }

    /// A reader exists only on an open connection.
    pub open spec fn well_formed(self) -> bool {
        self.reader ==> self.connected
    }

    /// The text that `event` adds to the receive buffer.
    pub open spec fn received(event: ReadEvent) -> Seq<char> {
        match event {
            ReadEvent::Chunk(bytes) => chunk_text(bytes@),
            _ => Seq::empty(),
        }
    }

    /// The answer of a read to `event`.
    pub open spec fn read_step(self, event: ReadEvent) -> ReadStepView {
        match event {
            ReadEvent::Start { readable } => {
                if !self.connected {
                    ReadStepView::Done(Err(SerialError::NotConnected))
                } else if !readable {
                    ReadStepView::Done(Err(SerialError::NotReadable))
                } else if self.reading {
                    ReadStepView::Wait
                } else if self.reader {
                    ReadStepView::Read
                } else {
                    ReadStepView::AcquireReader
                }
            },
            ReadEvent::ReaderAcquired => {
                if self.connected {
                    ReadStepView::Read
                } else {
                    ReadStepView::Done(Err(SerialError::NotConnected))
                }
            },
            ReadEvent::ReaderRefused | ReadEvent::Failed => ReadStepView::Done(
                Err(SerialError::IoError),
            ),
            ReadEvent::Chunk(_) | ReadEvent::Closed => ReadStepView::Done(
                Ok(first_frame(self.pending + Self::received(event))),
            ),
        }
    }

    /// `event` begins a read in this state: it is a `Start` that is told to
    /// take a reader or to read.
    pub open spec fn begins_read(self, event: ReadEvent) -> bool {
        event is Start && (self.read_step(event) == ReadStepView::AcquireReader || self.read_step(
            event,
        ) == ReadStepView::Read)
    }

    /// `event` ends the read that is under way: it is none of `Start`, and
    /// the answer to it is the read's result.
    pub open spec fn ends_read(self, event: ReadEvent) -> bool {
        !(event is Start) && self.read_step(event) is Done
    }

    /// The state that a read leaves on `event`. A read is under way from the
    /// `Start` that begins it to the event that ends it.
    pub open spec fn after_read(self, event: ReadEvent) -> SerialState {
        let reading = if self.begins_read(event) {
            true
        } else if self.ends_read(event) {
            false
        } else {
            self.reading
        };
        match event {
            ReadEvent::ReaderAcquired => SerialState { reader: self.connected, reading, ..self },
            ReadEvent::Chunk(_) | ReadEvent::Closed => SerialState {
                pending: after_first_frame(self.pending + Self::received(event)),
                reading,
                ..self
            },
            _ => SerialState { reading, ..self },
        }
    }

    /// The answer of a connection attempt to `event`.
    pub open spec fn connect_step(baud_rate: u32, event: ConnectEvent) -> ConnectStep {
        match event {
            ConnectEvent::Start { serial_available } => {
                if serial_available {
                    ConnectStep::RequestPort
                } else {
                    ConnectStep::Done(Err(SerialError::Unavailable))
                }
            },
            ConnectEvent::PortSelected => ConnectStep::OpenPort { baud_rate },
            ConnectEvent::PortRefused | ConnectEvent::OpenFailed => ConnectStep::Done(
                Err(SerialError::PortError),
            ),
            ConnectEvent::Opened => ConnectStep::Done(Ok(())),
        }
    }

    /// The state that a connection attempt leaves on `event`: a newly opened
    /// port starts with no reader and an empty receive buffer.
    pub open spec fn after_connect(self, event: ConnectEvent) -> SerialState {
        match event {
            ConnectEvent::Opened => SerialState {
                connected: true,
                reader: false,
                pending: Seq::empty(),
                ..self
            },
            _ => self,
        }
    }

    /// The answer of a write of `command` to `event`.
    pub open spec fn write_step(self, command: Seq<char>, event: WriteEvent) -> WriteStepView {
        match event {
            WriteEvent::Start { writable } => {
                if !self.connected {
                    WriteStepView::Done(Err(SerialError::NotConnected))
                } else if !writable {
                    WriteStepView::Done(Err(SerialError::NotWritable))
                } else {
                    WriteStepView::Transmit(encode_utf8(command))
                }
            },
            WriteEvent::Written => WriteStepView::Done(Ok(())),
            WriteEvent::Failed => WriteStepView::Done(Err(SerialError::IoError)),
        }
    }

    /// The state without its reader and without pending text.
    pub open spec fn after_stop_reader(self) -> SerialState {
        SerialState { reader: false, pending: Seq::empty(), ..self }
    }

    /// The state once the connection is given up: no port, no reader, no
    /// pending text, and the drain told to stop. A drain loop that is alive
    /// stays so until its next turn.
    pub open spec fn after_disconnect(self) -> SerialState {
        SerialState {
            connected: false,
            reader: false,
            pending: Seq::empty(),
            draining: false,
            ..self
        }
    }

    /// What a disconnect has to release, in this order: the reader first,
    /// then the port.
    pub open spec fn teardown(self) -> Seq<Release> {
        (if self.reader {
            seq![Release::CancelReader]
        } else {
            Seq::empty()
        }) + (if self.connected {
            seq![Release::ClosePort]
        } else {
            Seq::empty()
        })
    }

    /// Starting the drain launches a loop only where none is alive.
    pub open spec fn launches_drain(self) -> bool {
        !self.loop_alive
    }

    /// The state once the drain is started: it is meant to run, and a loop
    /// is alive, the one that was or the one to launch.
    pub open spec fn after_spawn_drain(self) -> SerialState {
        SerialState { draining: true, loop_alive: true, ..self }
    }

    /// The state with the drain told to stop.
    pub open spec fn after_stop_drain(self) -> SerialState {
        SerialState { draining: false, ..self }
    }

    /// A loop that is alive goes on while the drain is meant to run and a
    /// port is open.
    pub open spec fn drain_step(self) -> DrainStep {
        if self.loop_alive && self.draining && self.connected {
            DrainStep::Poll { pause_ms: DRAIN_PAUSE_MS }
        } else {
            DrainStep::Stop
        }
    }

    /// The state that a turn of the drain leaves: a loop that is told to stop
    /// is alive no longer, and the drain is not meant to run.
    pub open spec fn after_drain_step(self) -> SerialState {
        if self.drain_step() == DrainStep::Stop {
            SerialState { draining: false, loop_alive: false, ..self }
        } else {
            self
        }
    }

    /// The state that `operation` leaves.
    pub open spec fn after(self, operation: Operation) -> SerialState {
        match operation {
            Operation::Read(event) => self.after_read(event),
            Operation::Connect(event) => self.after_connect(event),
            Operation::StopReader => self.after_stop_reader(),
            Operation::Disconnect => self.after_disconnect(),
            Operation::SpawnDrain => self.after_spawn_drain(),
            Operation::StopDrain => self.after_stop_drain(),
            Operation::DrainStep => self.after_drain_step(),
        }
    }

    /// The state that `operations` leave, carried out one after the other.
    pub open spec fn after_all(self, operations: Seq<Operation>) -> SerialState
        decreases operations.len(),
    {
        if operations.len() == 0 {
            self
        } else {
            self.after_all(operations.drop_last()).after(operations.last())
        }
    }

    /// `operation` launches a drain loop in this state.
    pub open spec fn launches(self, operation: Operation) -> bool {
        operation == Operation::SpawnDrain && self.launches_drain()
    }

    /// `operation` ends the drain loop in this state.
    pub open spec fn ends_loop(self, operation: Operation) -> bool {
        operation == Operation::DrainStep && self.drain_step() == DrainStep::Stop
    }

    /// `operation` begins a read in this state.
    pub open spec fn begins_a_read(self, operation: Operation) -> bool {
        operation matches Operation::Read(event) && self.begins_read(event)
    }

    /// `operation` ends the read that is under way in this state.
    pub open spec fn ends_the_read(self, operation: Operation) -> bool {
        operation matches Operation::Read(event) && self.ends_read(event)
    }
}

/// One call of a step that can change the state of a manager.
pub enum Operation {
    Read(ReadEvent),
    Connect(ConnectEvent),
    StopReader,
    Disconnect,
    SpawnDrain,
    StopDrain,
    DrainStep,
}

/// No step of any operation attaches a reader to a closed connection.
pub proof fn lemma_steps_keep_well_formed(
    state: SerialState,
    read: ReadEvent,
    connect: ConnectEvent,
)
    requires
        state.well_formed(),
    ensures
        SerialState::initial().well_formed(),
        state.after_read(read).well_formed(),
        state.after_connect(connect).well_formed(),
        state.after_stop_reader().well_formed(),
        state.after_disconnect().well_formed(),
        state.after_spawn_drain().well_formed(),
        state.after_stop_drain().well_formed(),
        state.after_drain_step().well_formed(),
{
}

/// Starting the drain twice in a row leaves one loop: the first start
/// launches one if none was alive, the second launches none and changes
/// nothing.
pub proof fn lemma_drain_starts_once(state: SerialState)
    ensures
        state.after_spawn_drain().draining,
        state.after_spawn_drain().loop_alive,
        !state.after_spawn_drain().launches_drain(),
        state.after_spawn_drain().after_spawn_drain() == state.after_spawn_drain(),
{
}

/// Between the launch of a drain loop and the turn that ends it no second
/// loop is launched, whatever is done in between: stops and starts of the
/// drain, disconnects and connects, reads.
pub proof fn lemma_one_drain_loop(state: SerialState, operations: Seq<Operation>)
    requires
        state.loop_alive,
        forall|i: int|
            0 <= i < operations.len() ==> !(#[trigger] state.after_all(
                operations.take(i),
            )).ends_loop(operations[i]),
    ensures
        state.after_all(operations).loop_alive,
        forall|i: int|
            0 <= i < operations.len() ==> !(#[trigger] state.after_all(
                operations.take(i),
            )).launches(operations[i]),
    decreases operations.len(),
{
    if operations.len() > 0 {
        let earlier = operations.drop_last();
        assert forall|i: int| 0 <= i < earlier.len() implies !(#[trigger] state.after_all(
            earlier.take(i),
        )).ends_loop(earlier[i]) by {
            assert(earlier.take(i) =~= operations.take(i));
        }
        lemma_one_drain_loop(state, earlier);
        let last = operations.len() - 1;
        assert(operations.take(last) =~= earlier);
        let before = state.after_all(earlier);
        assert(!before.ends_loop(operations[last]));
        assert forall|i: int| 0 <= i < operations.len() implies !(#[trigger] state.after_all(
            operations.take(i),
        )).launches(operations[i]) by {
            if i < last {
                assert(earlier.take(i) =~= operations.take(i));
            }
        }
    }
}

/// A loop that is asleep survives a stop that is taken back before its next
/// turn: the start that follows the stop launches nothing, and the loop's
/// next turn reads on. The same holds after a disconnect and a new
/// connection.
pub proof fn lemma_restart_keeps_the_loop(state: SerialState)
    requires
        state.loop_alive,
    ensures
        !state.after_stop_drain().launches_drain(),
        state.after_stop_drain().after_spawn_drain().loop_alive,
        state.connected ==> state.after_stop_drain().after_spawn_drain().drain_step()
            == (DrainStep::Poll { pause_ms: DRAIN_PAUSE_MS }),
        !state.after_disconnect().after_connect(ConnectEvent::Opened).launches_drain(),
        state.after_disconnect().after_connect(ConnectEvent::Opened).after_spawn_drain().drain_step()
            == (DrainStep::Poll { pause_ms: DRAIN_PAUSE_MS }),
{
}

/// Stopping a drain that is not running changes nothing.
pub proof fn lemma_stopping_idle_drain_is_noop(state: SerialState)
    requires
        !state.draining,
    ensures
        state.after_stop_drain() == state,
{
}

/// A stopped drain ends at its next turn, and so does one whose connection
/// is gone.
pub proof fn lemma_drain_ends_when_told(state: SerialState)
    ensures
        state.after_stop_drain().drain_step() == DrainStep::Stop,
        state.after_disconnect().drain_step() == DrainStep::Stop,
        state.drain_step() == DrainStep::Stop ==> !state.after_drain_step().draining
            && !state.after_drain_step().loop_alive,
        state.drain_step() != DrainStep::Stop ==> state.after_drain_step() == state,
{
}

/// A read asks for a reader only where none is attached and no other read
/// is under way, and an attached reader stays attached through every step of
/// a read.
pub proof fn lemma_reader_is_never_doubled(state: SerialState, event: ReadEvent)
    requires
        state.well_formed(),
    ensures
        state.read_step(event) == ReadStepView::AcquireReader ==> !state.reader
            && state.connected && !state.reading,
        state.reader ==> state.after_read(event).reader,
{
}

/// While a read is under way no second one begins, whatever is done in
/// between: every `Start` on an open, readable port is told to wait, up to the
/// event that ends the read.
pub proof fn lemma_one_read_in_flight(state: SerialState, operations: Seq<Operation>)
    requires
        state.reading,
        forall|i: int|
            0 <= i < operations.len() ==> !(#[trigger] state.after_all(
                operations.take(i),
            )).ends_the_read(operations[i]),
    ensures
        state.after_all(operations).reading,
        forall|i: int|
            0 <= i < operations.len() ==> !(#[trigger] state.after_all(
                operations.take(i),
            )).begins_a_read(operations[i]),
    decreases operations.len(),
{
    if operations.len() > 0 {
        let earlier = operations.drop_last();
        assert forall|i: int| 0 <= i < earlier.len() implies !(#[trigger] state.after_all(
            earlier.take(i),
        )).ends_the_read(earlier[i]) by {
            assert(earlier.take(i) =~= operations.take(i));
        }
        lemma_one_read_in_flight(state, earlier);
        let last = operations.len() - 1;
        assert(operations.take(last) =~= earlier);
        let before = state.after_all(earlier);
        assert(!before.ends_the_read(operations[last]));
        assert forall|i: int| 0 <= i < operations.len() implies !(#[trigger] state.after_all(
            operations.take(i),
        )).begins_a_read(operations[i]) by {
            if i < last {
                assert(earlier.take(i) =~= operations.take(i));
            }
        }
    }
}

/// A read that has begun is under way until it is answered with its result,
/// and then another may begin.
pub proof fn lemma_read_runs_from_start_to_result(state: SerialState, event: ReadEvent)
    ensures
        state.begins_read(event) ==> !state.reading && state.after_read(event).reading,
        state.ends_read(event) ==> !state.after_read(event).reading,
        !state.begins_read(event) && !state.ends_read(event) ==> state.after_read(event).reading
            == state.reading,
        state.read_step(event) == ReadStepView::Wait ==> state.reading && state.after_read(event)
            == state,
{
}

/// After the reader was given up, the next read on a readable port asks for
/// a new one, and the read that follows reuses it.
pub proof fn lemma_read_after_stop_takes_new_reader(state: SerialState)
    requires
        state.connected,
        !state.reading,
    ensures
        state.after_stop_reader().read_step(ReadEvent::Start { readable: true })
            == ReadStepView::AcquireReader,
        state.after_stop_reader().after_read(ReadEvent::Start { readable: true }).after_read(
            ReadEvent::ReaderAcquired,
        ).after_read(ReadEvent::Closed).read_step(ReadEvent::Start { readable: true })
            == ReadStepView::Read,
{
}

/// A disconnect releases the reader that was attached and the port that was
/// open, the reader first, and a connection opened after it starts with an
/// empty receive buffer and without a reader.
pub proof fn lemma_reconnect_starts_clean(state: SerialState)
    ensures
        state.reader && state.connected ==> state.teardown() == seq![
            Release::CancelReader,
            Release::ClosePort,
        ],
        !state.reader && state.connected ==> state.teardown() == seq![Release::ClosePort],
        !state.reader && !state.connected ==> state.teardown() == Seq::<Release>::empty(),
        state.after_disconnect().teardown() == Seq::<Release>::empty(),
        state.after_disconnect().after_connect(ConnectEvent::Opened) == (SerialState {
            connected: true,
            reader: false,
            pending: Seq::empty(),
            draining: false,
            loop_alive: state.loop_alive,
            reading: state.reading,
        }),
        state.after_connect(ConnectEvent::Opened).pending == Seq::<char>::empty(),
        !state.after_connect(ConnectEvent::Opened).reader,
{
}

/// `plan` is what a driver operation of the steps `steps` answers in
/// `state`: the steps where a port is open, `NotConnected` where none is.
pub open spec fn is_driver_plan(
    plan: Result<Vec<DriverStep>, SerialError>,
    state: SerialState,
    steps: Seq<DriverStepView>,
) -> bool {
    match plan {
        Ok(given) => state.connected && given.deep_view() == steps,
        Err(error) => !state.connected && error == SerialError::NotConnected,
    }
}

/// The frequency of the test tune, in Hz: 14.062 MHz.
pub const TEST_TUNE_HZ: u64 = 14_062_000;

/// The serial link of one transceiver.
pub struct SerialManager {
    connected: bool,
    reader: bool,
    pending: String,
    draining: bool,
    loop_alive: bool,
    reading: bool,
}

impl View for SerialManager {
    type V = SerialState;

    closed spec fn view(&self) -> SerialState {
        SerialState {
            connected: self.connected,
            reader: self.reader,
            pending: self.pending@,
            draining: self.draining,
            loop_alive: self.loop_alive,
            reading: self.reading,
        }
    }
}

impl SerialManager {
    #[verifier::type_invariant]
    spec fn reader_needs_port(self) -> bool {
        self.reader ==> self.connected
    }

    /// A manager with nothing open.
    pub fn new() -> (manager: Self)
        ensures
            manager@ == SerialState::initial(),
    {
        SerialManager {
            connected: false,
            reader: false,
            pending: String::new(),
            draining: false,
            loop_alive: false,
            reading: false,
        }
    }

    /// Whether a port is open.
    pub fn is_connected(&self) -> (connected: bool)
        ensures
            connected == self@.connected,
    {
        self.connected
    }

    /// Whether a reader is attached to the port's input stream.
    pub fn has_reader(&self) -> (reader: bool)
        ensures
            reader == self@.reader,
    {
        self.reader
    }

    /// Whether the background drain is meant to keep running.
    pub fn is_draining(&self) -> (draining: bool)
        ensures
            draining == self@.draining,
    {
        self.draining
    }

    /// Whether a read has begun and is not yet over.
    pub fn is_reading(&self) -> (reading: bool)
        ensures
            reading == self@.reading,
    {
        self.reading
    }

    /// Whether a drain loop was launched and has not yet been told to stop.
    pub fn has_drain_loop(&self) -> (alive: bool)
        ensures
            alive == self@.loop_alive,
    {
        self.loop_alive
    }

    /// The text received and not yet delivered as a frame.
    pub fn pending(&self) -> (text: &str)
        ensures
            text@ == self@.pending,
    {
        self.pending.as_str()
    }

    /// One step of opening the connection at `baud_rate`.
    ///
    /// An attempt begins with `ConnectEvent::Start`. Until the port is open
    /// nothing changes; a newly opened port starts with no reader and an
    /// empty receive buffer, whatever was there before.
    pub fn connect(&mut self, baud_rate: u32, event: ConnectEvent) -> (step: ConnectStep)
        ensures
            step == SerialState::connect_step(baud_rate, event),
            final(self)@ == old(self)@.after_connect(event),
            final(self)@.well_formed(),
    {
        proof {
            use_type_invariant(&*self);
        }
        match event {
            ConnectEvent::Start { serial_available } => {
                if serial_available {
                    ConnectStep::RequestPort
                } else {
                    ConnectStep::Done(Err(SerialError::Unavailable))
                }
            },
            ConnectEvent::PortSelected => ConnectStep::OpenPort { baud_rate },
            ConnectEvent::PortRefused => ConnectStep::Done(Err(SerialError::PortError)),
            ConnectEvent::OpenFailed => ConnectStep::Done(Err(SerialError::PortError)),
            ConnectEvent::Opened => {
                self.reader = false;
                self.connected = true;
                self.pending = String::new();
                ConnectStep::Done(Ok(()))
            },
        }
    }

    /// One step of writing `command` to the transceiver.
    ///
    /// A write begins with `WriteEvent::Start`. The bytes to transmit are the
    /// command's own, with nothing added.
    pub fn write_command(&self, command: &str, event: WriteEvent) -> (step: WriteStep)
        ensures
            step@ == self@.write_step(command@, event),
    {
        match event {
            WriteEvent::Start { writable } => {
                if !self.connected {
                    WriteStep::Done(Err(SerialError::NotConnected))
                } else if !writable {
                    WriteStep::Done(Err(SerialError::NotWritable))
                } else {
                    WriteStep::Transmit(command.as_bytes_vec())
                }
            },
            WriteEvent::Written => WriteStep::Done(Ok(())),
            WriteEvent::Failed => WriteStep::Done(Err(SerialError::IoError)),
        }
    }

    /// Gives up the connection: the reader as `stop_reader` does, then the
    /// port; the drain is told to stop. The result lists what the host has
    /// to release, in order; on a manager with nothing open that is nothing.
    pub fn disconnect(&mut self) -> (releases: Vec<Release>)
        ensures
            releases@ == old(self)@.teardown(),
            final(self)@ == old(self)@.after_disconnect(),
            final(self)@.well_formed(),
    {
        let mut releases: Vec<Release> = Vec::new();
        if self.reader {
            releases.push(Release::CancelReader);
        }
        if self.connected {
            releases.push(Release::ClosePort);
        }
        assert(releases@ =~= self@.teardown());
        self.reader = false;
        self.connected = false;
        self.pending = String::new();
        self.draining = false;
        releases
    }

    /// Gives up the reader and clears the receive buffer; the port stays
    /// open. The result says whether a reader was attached, which the host
    /// then has to cancel and release.
    pub fn stop_reader(&mut self) -> (cancel_reader: bool)
        ensures
            cancel_reader == old(self)@.reader,
            final(self)@ == old(self)@.after_stop_reader(),
            final(self)@.well_formed(),
    {
        let cancel_reader = self.reader;
        self.reader = false;
        self.pending = String::new();
        cancel_reader
    }

    /// Starts the background drain. The result says whether a loop has to be
    /// launched: it is `false` while a loop is alive, which then goes on. Each
    /// turn of a loop begins with `drain_step`, and a loop that is answered
    /// `Stop` ends and never asks again.
    pub fn spawn_buffer_drain(&mut self) -> (launch: bool)
        ensures
            launch == old(self)@.launches_drain(),
            final(self)@ == old(self)@.after_spawn_drain(),
            final(self)@.well_formed(),
    {
        proof {
            use_type_invariant(&*self);
        }
        let launch = !self.loop_alive;
        self.draining = true;
        self.loop_alive = true;
        launch
    }

    /// Tells the background drain to end at its next turn.
    pub fn stop_buffer_drain(&mut self)
        ensures
            final(self)@ == old(self)@.after_stop_drain(),
            final(self)@.well_formed(),
    {
        proof {
            use_type_invariant(&*self);
        }
        self.draining = false;
    }

    /// One turn of the background drain: whether to read and sleep once
    /// more, or to end.
    pub fn drain_step(&mut self) -> (step: DrainStep)
        ensures
            step == old(self)@.drain_step(),
            final(self)@ == old(self)@.after_drain_step(),
            final(self)@.well_formed(),
    {
        proof {
            use_type_invariant(&*self);
        }
        if self.loop_alive && self.draining && self.connected {
            DrainStep::Poll { pause_ms: DRAIN_PAUSE_MS }
        } else {
            self.draining = false;
            self.loop_alive = false;
            DrainStep::Stop
        }
    }

    /// One step of sending `cmd` as it is; the caller supplies the
    /// terminator. The same as `write_command`.
    pub fn send_raw(&self, cmd: &str, event: WriteEvent) -> (step: WriteStep)
        ensures
            step@ == self@.write_step(cmd@, event),
    {
        self.write_command(cmd, event)
    }

    /// The steps that tune the transceiver to `freq_hz` and set the mode
    /// named by `mode`, in any letter case: select VFO A, pause, set the
    /// frequency, pause, set the mode. Without an open port there are no
    /// steps.
    pub fn tune_kenwood_ts570(&self, freq_hz: u64, mode: &str) -> (plan: Result<
        Vec<DriverStep>,
        SerialError,
    >)
        ensures
            is_driver_plan(plan, self@, tune_plan(freq_hz, mode_form(mode@))),
    {
        if !self.connected {
            return Err(SerialError::NotConnected);
        }
        let upper = mode_form_of(mode);
        Ok(tune_steps(freq_hz, upper.as_str()))
    }

    /// Wraps `steps` as the plan of a driver operation.
    fn plan(&self, steps: Vec<DriverStep>) -> (plan: Result<Vec<DriverStep>, SerialError>)
        ensures
            is_driver_plan(plan, self@, steps.deep_view()),
    {
        if self.connected {
            Ok(steps)
        } else {
            Err(SerialError::NotConnected)
        }
    }

    /// Appends `text` to the receive buffer and takes the first complete
    /// frame out of it.
    fn receive(&mut self, text: &str) -> (frame: String)
        ensures
            frame@ == first_frame(old(self)@.pending + text@),
            final(self)@ == (SerialState {
                pending: after_first_frame(old(self)@.pending + text@),
                ..old(self)@
            }),
    {
        proof {
            use_type_invariant(&*self);
        }
        let (frame, rest) = take_frame(self.pending.as_str(), text);
        self.pending = rest;
        frame
    }

    /// One step of reading a frame through the persistent reader.
    ///
    /// A read begins with `ReadEvent::Start`, and only while no other read is
    /// under way. It reuses the attached reader and asks for a new one only
    /// where none is attached. The bytes of a chunk are decoded, appended to
    /// the receive buffer, and the first complete frame, if there is one, is
    /// taken out and returned.
    pub fn read_from_persistent_reader(&mut self, event: ReadEvent) -> (step: ReadStep)
        ensures
            step@ == old(self)@.read_step(event),
            final(self)@ == old(self)@.after_read(event),
            final(self)@.well_formed(),
    {
        proof {
            use_type_invariant(&*self);
        }
        match event {
            ReadEvent::Start { readable } => {
                if !self.connected {
                    ReadStep::Done(Err(SerialError::NotConnected))
                } else if !readable {
                    ReadStep::Done(Err(SerialError::NotReadable))
                } else if self.reading {
                    ReadStep::Wait
                } else if self.reader {
                    self.reading = true;
                    ReadStep::Read
                } else {
                    self.reading = true;
                    ReadStep::AcquireReader
                }
            },
            ReadEvent::ReaderAcquired => {
                if self.connected {
                    self.reader = true;
                    ReadStep::Read
                } else {
                    self.reading = false;
                    ReadStep::Done(Err(SerialError::NotConnected))
                }
            },
            ReadEvent::ReaderRefused => {
                self.reading = false;
                ReadStep::Done(Err(SerialError::IoError))
            },
            ReadEvent::Failed => {
                self.reading = false;
                ReadStep::Done(Err(SerialError::IoError))
            },
            ReadEvent::Chunk(bytes) => {
                let text = decode_chunk(bytes.as_slice());
                self.reading = false;
                ReadStep::Done(Ok(self.receive(text.as_str())))
            },
            ReadEvent::Closed => {
                proof {
                    reveal_strlit("");
                }
                self.reading = false;
                ReadStep::Done(Ok(self.receive("")))
            },
        }
    }
}

impl Default for SerialManager {
    /// A manager with nothing open.
    fn default() -> (manager: Self)
        ensures
            manager@ == SerialState::initial(),
    {
        SerialManager::new()
    }
}

/// The operations of a Kenwood-protocol transceiver, each as the steps that
/// carry it out on a serial link.
pub struct KenwoodDriver;

impl KenwoodDriver {
    /// The steps that tune to `freq_hz` in the mode named by `mode`.
    pub fn tune(serial: &SerialManager, freq_hz: u64, mode: &str) -> (plan: Result<
        Vec<DriverStep>,
        SerialError,
    >)
        ensures
            is_driver_plan(plan, serial@, tune_plan(freq_hz, mode_form(mode@))),
    {
        serial.tune_kenwood_ts570(freq_hz, mode)
    }

    /// The steps of `tune`, where the operator's range allows `freq_hz`. A
    /// frequency outside the range is turned down, whatever the state of the
    /// link, and nothing is sent.
    pub fn tune_within(
        serial: &SerialManager,
        range: &FrequencyRange,
        freq_hz: u64,
        mode: &str,
    ) -> (plan: Result<Vec<DriverStep>, TuneError>)
        ensures
            match plan {
                Ok(steps) => range.contains(freq_hz) && is_driver_plan(
                    Ok(steps),
                    serial@,
                    tune_plan(freq_hz, mode_form(mode@)),
                ),
                Err(TuneError::OutOfRange) => !range.contains(freq_hz),
                Err(TuneError::Serial(error)) => range.contains(freq_hz) && is_driver_plan(
                    Err(error),
                    serial@,
                    tune_plan(freq_hz, mode_form(mode@)),
                ),
            },
    {
        if !range.allows(freq_hz) {
            return Err(TuneError::OutOfRange);
        }
        match serial.tune_kenwood_ts570(freq_hz, mode) {
            Ok(steps) => Ok(steps),
            Err(error) => Err(TuneError::Serial(error)),
        }
    }

    /// The steps that tune to 14.062 MHz in CW.
    pub fn test_tune(serial: &SerialManager) -> (plan: Result<Vec<DriverStep>, SerialError>)
        ensures
            is_driver_plan(plan, serial@, tune_plan(TEST_TUNE_HZ, mode_form("CW"@))),
    {
        serial.tune_kenwood_ts570(TEST_TUNE_HZ, "CW")
    }

    /// One step of sending `cmd` as it is.
    pub fn send_raw(serial: &SerialManager, cmd: &str, event: WriteEvent) -> (step: WriteStep)
        ensures
            step@ == serial@.write_step(cmd@, event),
    {
        serial.send_raw(cmd, event)
    }

    /// The steps that select VFO A for receiving and for transmitting.
    pub fn set_vfo_a(serial: &SerialManager) -> (plan: Result<Vec<DriverStep>, SerialError>)
        ensures
            is_driver_plan(plan, serial@, vfo_plan(Vfo::A)),
    {
        serial.plan(vfo_steps(Vfo::A))
    }

    /// The steps that select VFO B for receiving and for transmitting.
    pub fn set_vfo_b(serial: &SerialManager) -> (plan: Result<Vec<DriverStep>, SerialError>)
        ensures
            is_driver_plan(plan, serial@, vfo_plan(Vfo::B)),
    {
        serial.plan(vfo_steps(Vfo::B))
    }

    /// The step that sets the mode named by `mode`, in any letter case.
    pub fn set_mode(serial: &SerialManager, mode: &str) -> (plan: Result<
        Vec<DriverStep>,
        SerialError,
    >)
        ensures
            is_driver_plan(plan, serial@, mode_plan(mode_form(mode@))),
    {
        let upper = mode_form_of(mode);
        serial.plan(mode_steps(upper.as_str()))
    }

    /// The steps that ask for the frequency of VFO A and read once. Nothing
    /// ties the frame that the read returns to the question: with other
    /// traffic on the link it may be an older or an unrelated one.
    pub fn query_frequency(serial: &SerialManager) -> (plan: Result<Vec<DriverStep>, SerialError>)
        ensures
            is_driver_plan(plan, serial@, query_plan()),
    {
        serial.plan(query_steps())
    }
}

} // verus!
