//! The connection worker as a state machine.
//!
//! A worker owns one codec and one random generator. It never touches its
//! connection: [`Worker::step`] is told what happened on it and answers with
//! what is to be done next, until the connection fails or the worker is
//! stopped.

use vstd::prelude::*;
use crate::protocol::flutties::{PACE_MILLIS, SET_RECORD_LEN};
use crate::protocol::handshake::Reply;
use crate::protocol::instance::Instance;
use crate::protocol::{concat, CanvasSize, Protocol};
use crate::sampling::random_color;
use crate::transport::Outbound;

verus! {

/// The direction of a connection.
#[derive(Debug, Clone, Copy, PartialEq, Eq, Structural)]
pub enum Mode {
    /// The worker asks for pixels, and what comes back is drained.
    Read,
    /// The worker sets pixels.
    Write,
}

/// Why a worker ended.
#[derive(Debug, Clone, Copy, PartialEq, Eq, Structural)]
pub enum TerminalCause {
    /// It was stopped from outside, with its connection in order.
    Finished,
    /// Its connection failed.
    IoFailure,
    /// The answer to its size request was no size.
    ProtocolError,
}

/// What a worker reports when it ends.
#[derive(Debug, Clone, Copy, PartialEq, Eq, Structural)]
pub struct WorkerResult {
    /// Frames that went out whole.
    pub frames_completed: u64,
    pub terminal_cause: TerminalCause,
}

/// Where a worker stands.
#[derive(Debug, Clone, Copy, PartialEq, Eq, Structural)]
pub enum Phase {
    /// The connection is open and nothing was sent.
    Connected,
    /// The size request is on its way out.
    Requested,
    /// The size request went out and the answer is being read.
    AwaitingSize,
    /// The size is known and the drain task is being started.
    Negotiated(CanvasSize),
    /// A frame is on its way out.
    Streaming(CanvasSize),
    /// The worker has ended.
    Terminated(TerminalCause),
}

/// What happened on the connection since the last step.
#[derive(Debug)]
pub enum Event {
    /// The connection was opened.
    Opened,
    /// What the last action asked for was done.
    Done,
    /// These bytes were read, as the last action asked.
    Received(Vec<u8>),
    /// A read, a write or a flush failed.
    Failed,
    /// The worker is to end.
    Stopped,
}

/// How a frame is to be written where it is not written at once.
#[derive(Debug, Clone, Copy, PartialEq, Eq, Structural)]
pub struct Pacing {
    /// Bytes to write and flush together.
    pub record_len: usize,
    /// Milliseconds from one record to the next.
    pub millis: u64,
}

/// What is to be done on the connection.
#[derive(Debug)]
pub enum Action {
    /// Write these bytes and flush.
    Send(Vec<u8>),
    /// Read this and hand it back.
    Read(Reply),
    /// Start the task that reads and discards what arrives.
    StartDrain,
    /// Write the bytes of one frame: at once, or record by record.
    Transmit { bytes: Vec<u8>, paced: Option<Pacing> },
    /// Close the connection, and cancel the drain task where one runs.
    Stop { result: WorkerResult, cancel_drain: bool },
    /// Nothing: the event has no meaning where the worker stands.
    Ignored,
}

/// What a worker is, but for its random generator and its scratch line.
pub struct WorkerState {
    pub protocol: Protocol,
    pub canvas: u8,
    pub mode: Mode,
    /// In write mode, frames go to random coordinates.
    pub spray: bool,
    pub phase: Phase,
    /// Frames that went out whole.
    pub completed: u64,
    /// Frames that were encoded.
    pub encoded: u64,
}

impl WorkerState {
    /// The mode has a command for every pixel of the canvas.
    pub open spec fn addressable(self) -> bool {
        match self.mode {
            Mode::Read => self.protocol.can_get(self.canvas),
            Mode::Write => self.protocol.can_set(self.canvas),
        }
    }

    /// A drain task runs.
    pub open spec fn draining(self) -> bool {
        self.mode == Mode::Read && self.phase is Streaming
    }

    /// The worker ended in `cause`.
    pub open spec fn ended(self, cause: TerminalCause) -> WorkerState {
        WorkerState { phase: Phase::Terminated(cause), ..self }
    }

    /// The worker after the step on `event`.
    pub open spec fn next(self, event: Event) -> WorkerState {
        match (self.phase, event) {
            (Phase::Terminated(_), _) => self,
            (_, Event::Failed) => self.ended(TerminalCause::IoFailure),
            (_, Event::Stopped) => self.ended(TerminalCause::Finished),
            (Phase::Connected, Event::Opened) => WorkerState { phase: Phase::Requested, ..self },
            (Phase::Requested, Event::Done) => WorkerState { phase: Phase::AwaitingSize, ..self },
            (Phase::AwaitingSize, Event::Received(reply)) => match self.protocol.size_of(reply@) {
                None => self.ended(TerminalCause::ProtocolError),
                Some(size) => match self.mode {
                    Mode::Read => WorkerState { phase: Phase::Negotiated(size), ..self },
                    Mode::Write => WorkerState {
                        phase: Phase::Streaming(size),
                        encoded: (self.encoded + 1) as u64,
                        ..self
                    },
                },
            },
            (Phase::Negotiated(size), Event::Done) => WorkerState {
                phase: Phase::Streaming(size),
                encoded: (self.encoded + 1) as u64,
                ..self
            },
            (Phase::Streaming(size), Event::Done) => WorkerState {
                completed: (self.completed + 1) as u64,
                encoded: (self.encoded + 1) as u64,
                ..self
            },
            _ => self,
        }
    }

    /// How the frames of this worker are written.
    pub open spec fn pacing(self) -> Option<Pacing> {
        if self.protocol == Protocol::BinFlutties && self.mode == Mode::Write {
            Some(Pacing { record_len: SET_RECORD_LEN, millis: PACE_MILLIS })
        } else {
            None
        }
    }

    /// `bytes` is a frame of this worker on a canvas of `size`.
    pub open spec fn is_frame(self, size: CanvasSize, bytes: Seq<u8>) -> bool {
        match self.mode {
            Mode::Read => bytes == concat(self.protocol.get_commands(self.canvas, size.sweep())),
            Mode::Write => exists|color: crate::color::Color, coords: Seq<(u16, u16)>|
                size.covers(coords) && (!self.spray ==> coords == size.sweep()) && bytes == concat(
                    #[trigger] self.protocol.set_commands(self.canvas, color, coords),
                ),
        }
    }

    /// What the worker reports if it ends in `cause`.
    pub open spec fn result(self, cause: TerminalCause) -> WorkerResult {
        WorkerResult { frames_completed: self.completed, terminal_cause: cause }
    }

    /// `action` is the answer of this worker to `event`.
    pub open spec fn answers(self, event: Event, action: Action) -> bool {
        match (self.phase, event) {
            (Phase::Terminated(cause), _) => action == (Action::Stop {
                result: self.result(cause),
                cancel_drain: false,
            }),
            (_, Event::Failed) => action == (Action::Stop {
                result: self.result(TerminalCause::IoFailure),
                cancel_drain: self.draining(),
            }),
            (_, Event::Stopped) => action == (Action::Stop {
                result: self.result(TerminalCause::Finished),
                cancel_drain: self.draining(),
            }),
            (Phase::Connected, Event::Opened) => action matches Action::Send(bytes) && bytes@
                == concat(self.protocol.request(self.canvas)),
            (Phase::Requested, Event::Done) => action == Action::Read(self.protocol.reply()),
            (Phase::AwaitingSize, Event::Received(reply)) => match self.protocol.size_of(reply@) {
                None => action == (Action::Stop {
                    result: self.result(TerminalCause::ProtocolError),
                    cancel_drain: false,
                }),
                Some(size) => match self.mode {
                    Mode::Read => action is StartDrain,
                    Mode::Write => self.transmits(size, action),
                },
            },
            (Phase::Negotiated(size), Event::Done) => self.transmits(size, action),
            (Phase::Streaming(size), Event::Done) => self.transmits(size, action),
            _ => action is Ignored,
        }
    }

    /// `action` hands out one frame for a canvas of `size`.
    pub open spec fn transmits(self, size: CanvasSize, action: Action) -> bool {
        action matches Action::Transmit { bytes, paced } && paced == self.pacing() && self.is_frame(
            size,
            bytes@,
        )
    }
}

/// One connection's worker.
pub struct Worker {
    protocol: Protocol,
    canvas: u8,
    mode: Mode,
    spray: bool,
    phase: Phase,
    completed: u64,
    codec: Instance,
    rng: rand::rngs::StdRng,
}

impl View for Worker {
    type V = WorkerState;

    closed spec fn view(&self) -> WorkerState {
        WorkerState {
            protocol: self.protocol,
            canvas: self.canvas,
            mode: self.mode,
            spray: self.spray,
            phase: self.phase,
            completed: self.completed,
            encoded: self.codec.frames(),
        }
    }
}

impl Protocol {
    /// Tells whether the protocol has the commands of `mode` for `canvas`.
    pub fn addresses(self, canvas: u8, mode: Mode) -> (r: bool)
        ensures
            r == match mode {
                Mode::Read => self.can_get(canvas),
                Mode::Write => self.can_set(canvas),
            },
    {
        match (self, mode) {
            (Protocol::BinFlutties, Mode::Read) => canvas <= crate::protocol::flutties::MAX_GET_CANVAS,
            (Protocol::BinFlutties, Mode::Write) => canvas <= crate::protocol::flutties::MAX_SET_CANVAS,
            _ => true,
        }
    }
}

impl Worker {
    /// The worker is one that `new` made and `step` moved on: its codec
    /// speaks its protocol and has a command for its canvas, and no frame
    /// went out that was not encoded.
    pub closed spec fn wf(&self) -> bool {
        &&& self.codec.protocol() == self.protocol
        &&& self@.addressable()
        &&& self.completed <= self.codec.frames()
        &&& self.phase is Streaming ==> self.completed < self.codec.frames()
    }

    /// A worker on a connection that was just opened. It draws from `rng`
    /// alone.
    pub fn new(protocol: Protocol, canvas: u8, mode: Mode, spray: bool, rng: rand::rngs::StdRng) -> (worker:
        Worker)
        requires
            match mode {
                Mode::Read => protocol.can_get(canvas),
                Mode::Write => protocol.can_set(canvas),
            },
        ensures
            worker.wf(),
            worker@ == (WorkerState {
                protocol,
                canvas,
                mode,
                spray,
                phase: Phase::Connected,
                completed: 0,
                encoded: 0,
            }),
    {
        Worker {
            protocol,
            canvas,
            mode,
            spray,
            phase: Phase::Connected,
            completed: 0,
            codec: protocol.instance(),
            rng,
        }
    }

    /// Where the worker stands.
    pub fn phase(&self) -> (phase: Phase)
        ensures
            phase == self@.phase,
    {
        self.phase
    }

    /// Frames that went out whole.
    pub fn frames_completed(&self) -> (frames: u64)
        ensures
            frames == self@.completed,
    {
        self.completed
    }

    /// Frames that were encoded.
    pub fn frames_encoded(&self) -> (frames: u64)
        ensures
            frames == self@.encoded,
    {
        self.codec.count()
    }

    /// What the worker reported when it ended; `None` while it runs.
    pub fn result(&self) -> (r: Option<WorkerResult>)
        ensures
            r == match self@.phase {
                Phase::Terminated(cause) => Some(self@.result(cause)),
                _ => None,
            },
    {
        match self.phase {
            Phase::Terminated(cause) => Some(
                WorkerResult { frames_completed: self.completed, terminal_cause: cause },
            ),
            _ => None,
        }
    }

    /// How the frames of this worker are written.
    fn frame_pacing(&self) -> (paced: Option<Pacing>)
        ensures
            paced == self@.pacing(),
    {
        match (self.protocol, self.mode) {
            (Protocol::BinFlutties, Mode::Write) => Some(
                Pacing { record_len: SET_RECORD_LEN, millis: PACE_MILLIS },
            ),
            _ => None,
        }
    }

    /// Encodes the next frame for a canvas of `size`.
    fn begin_frame(&mut self, size: CanvasSize) -> (action: Action)
        requires
            old(self).wf(),
            old(self)@.encoded < u64::MAX,
            !(old(self)@.phase is Terminated),
        ensures
            final(self).codec.protocol() == final(self).protocol,
            final(self)@ == (WorkerState {
                phase: Phase::Streaming(size),
                encoded: (old(self)@.encoded + 1) as u64,
                ..old(self)@
            }),
            old(self)@.transmits(size, action),
    {
        let paced = self.frame_pacing();
        let mut out = Outbound::new();
        let ghost fresh = out;
        let ghost before = self@;
        match self.mode {
            Mode::Read => {
                let ghost commands = self.protocol.get_commands(self.canvas, size.sweep());
                let _ = self.codec.get_frame(&mut out, self.canvas, &size);
                proof {
                    assert(commands.take(commands.len() as int) =~= commands);
                    assert(out@ =~= concat(commands));
                }
            },
            Mode::Write => {
                if self.spray {
                    let sprayed = self.codec.spray_frame(
                        &mut out,
                        self.canvas,
                        &mut self.rng,
                        &size,
                    );
                    proof {
                        let (color, coords) = choose|
                            color: crate::color::Color,
                            coords: Seq<(u16, u16)>,
                        |
                            size.covers(coords) && #[trigger] crate::protocol::emitted(
                                before.encoded,
                                self.codec.frames(),
                                &fresh,
                                &out,
                                sprayed,
                                self.protocol.set_commands(self.canvas, color, coords),
                            );
                        let commands = self.protocol.set_commands(self.canvas, color, coords);
                        assert(commands.take(commands.len() as int) =~= commands);
                        assert(out@ =~= concat(commands));
                        assert(before.is_frame(size, out@));
                    }
                } else {
                    let color = random_color(&mut self.rng);
                    let ghost commands = self.protocol.set_commands(
                        self.canvas,
                        color,
                        size.sweep(),
                    );
                    let _ = self.codec.send_frame(&mut out, self.canvas, color, &size);
                    proof {
                        crate::protocol::lemma_sweep_covers(size);
                        assert(commands.take(commands.len() as int) =~= commands);
                        assert(out@ =~= concat(commands));
                        assert(before.is_frame(size, out@));
                    }
                }
            },
        }
        self.phase = Phase::Streaming(size);
        Action::Transmit { bytes: out.into_bytes(), paced }
    }
    /// Ends the worker in `cause`.
    fn end(&mut self, cause: TerminalCause) -> (action: Action)
        requires
            old(self).wf(),
            !(old(self)@.phase is Terminated),
        ensures
            final(self).wf(),
            final(self)@ == old(self)@.ended(cause),
            action == (Action::Stop {
                result: old(self)@.result(cause),
                cancel_drain: old(self)@.draining(),
            }),
    {
        let cancel_drain = match (self.mode, self.phase) {
            (Mode::Read, Phase::Streaming(_)) => true,
            _ => false,
        };
        self.phase = Phase::Terminated(cause);
        Action::Stop {
            result: WorkerResult { frames_completed: self.completed, terminal_cause: cause },
            cancel_drain,
        }
    }

    /// Moves the worker on by what happened on its connection, and says
    /// what is to be done there next.
    ///
    /// A worker that has ended stays as it is and repeats its result. A
    /// failure and a stop end every other worker. Any other event moves the
    /// worker on where it is the one that the worker waits for, and is
    /// ignored where it is not.
    pub fn step(&mut self, event: Event) -> (action: Action)
        requires
            old(self).wf(),
            old(self)@.encoded < u64::MAX,
        ensures
            final(self).wf(),
            final(self)@ == old(self)@.next(event),
            old(self)@.answers(event, action),
    {
        if let Phase::Terminated(cause) = self.phase {
            return Action::Stop {
                result: WorkerResult { frames_completed: self.completed, terminal_cause: cause },
                cancel_drain: false,
            };
        }
        match event {
            Event::Failed => self.end(TerminalCause::IoFailure),
            Event::Stopped => self.end(TerminalCause::Finished),
            Event::Opened => match self.phase {
                Phase::Connected => {
                    self.phase = Phase::Requested;
                    Action::Send(self.protocol.size_request(self.canvas))
                },
                _ => Action::Ignored,
            },
            Event::Done => match self.phase {
                Phase::Requested => {
                    self.phase = Phase::AwaitingSize;
                    Action::Read(self.protocol.expected_reply())
                },
                Phase::Negotiated(size) => self.begin_frame(size),
                Phase::Streaming(size) => {
                    let action = self.begin_frame(size);
                    self.completed += 1;
                    action
                },
                _ => Action::Ignored,
            },
            Event::Received(reply) => match self.phase {
                Phase::AwaitingSize => match self.protocol.parse_size(reply.as_slice()) {
                    Ok(size) => match self.mode {
                        Mode::Read => {
                            self.phase = Phase::Negotiated(size);
                            Action::StartDrain
                        },
                        Mode::Write => self.begin_frame(size),
                    },
                    Err(_) => self.end(TerminalCause::ProtocolError),
                },
                _ => Action::Ignored,
            },
        }
    }
}

} // verus!
