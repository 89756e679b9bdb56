//! The life of one connection to the board, from the optional setup
//! handshake through streaming to the stop. The session decides; its caller
//! owns the transport, writes the commands that the session hands out and
//! brings back what the board answered.
//!
//! A handshake that fails is final: the session never hands out the start
//! command afterwards. Another attempt takes a new session.

use vstd::prelude::*;
use crate::decoder::{absorb, fresh, Decoder, DecoderView};
use crate::pairing::is_matched_pair;
use crate::reading::Reading;
use crate::wire::{
    acknowledgement, channel_block, channel_blocks, channel_ids, command_bytes, occurs,
    start_bytes, start_command, stop_bytes, stop_command, SetupStep,
};

verus! {

/// Where a session stands.
#[derive(Debug, Clone, Copy, PartialEq, Eq, Structural)]
pub enum Phase {
    /// Nothing has been sent yet.
    Idle,
    /// The command of a setup step is out and its reply is awaited.
    AwaitingReply(SetupStep),
    /// The handshake went through.
    Ready,
    /// The board streams.
    Streaming,
    /// Streaming was stopped.
    Stopped,
    /// A reply of the handshake lacked its acknowledgement.
    Failed,
}

/// What can happen to a session.
pub enum Event {
    /// The caller asks for the setup handshake.
    BeginSetup,
    /// The board's reply to the last setup command has come.
    Reply(Seq<u8>),
    /// The caller asks for streaming to start.
    Start,
    /// Bytes of the stream have been read.
    Data(Seq<u8>),
    /// The caller asks for streaming to stop.
    Stop,
}

/// The phase that follows an event and the command to write, if any. An
/// event that the phase has no use for changes nothing and sends nothing.
pub open spec fn transition(phase: Phase, event: Event) -> (Phase, Option<Seq<u8>>) {
    match (phase, event) {
        (Phase::Idle, Event::BeginSetup) => (
            Phase::AwaitingReply(SetupStep::Reset),
            Some(command_bytes(SetupStep::Reset)),
        ),
        (Phase::AwaitingReply(step), Event::Reply(reply)) => {
            if !occurs(reply, acknowledgement(step)) {
                (Phase::Failed, None)
            } else {
                match step.next() {
                    Some(following) => (
                        Phase::AwaitingReply(following),
                        Some(command_bytes(following)),
                    ),
                    None => (Phase::Ready, None),
                }
            }
        },
        (Phase::Idle, Event::Start) => (Phase::Streaming, Some(start_bytes())),
        (Phase::Ready, Event::Start) => (Phase::Streaming, Some(start_bytes())),
        (Phase::Streaming, Event::Stop) => (Phase::Stopped, Some(stop_bytes())),
        _ => (phase, None),
    }
}

/// The phase after a sequence of events and the commands written on the
/// way, oldest first.
pub open spec fn trace(phase: Phase, events: Seq<Event>) -> (Phase, Seq<Seq<u8>>)
    decreases events.len(),
{
    if events.len() == 0 {
        (phase, Seq::empty())
    } else {
        let (before, written) = trace(phase, events.drop_last());
        let (after, command) = transition(before, events.last());
        match command {
            Some(bytes) => (after, written.push(bytes)),
            None => (after, written),
        }
    }
}

/// Running a sequence of events in two parts gives what running it whole
/// gives.
pub proof fn lemma_trace_concat(phase: Phase, first: Seq<Event>, second: Seq<Event>)
    ensures
        trace(phase, first + second) == ({
            let (between, early) = trace(phase, first);
            let (after, late) = trace(between, second);
            (after, early + late)
        }),
    decreases second.len(),
{
    let (between, early) = trace(phase, first);
    if second.len() == 0 {
        assert(first + second =~= first);
        assert(early + Seq::<Seq<u8>>::empty() =~= early);
    } else {
        lemma_trace_concat(phase, first, second.drop_last());
        assert((first + second).drop_last() =~= first + second.drop_last());
        let (before, late) = trace(between, second.drop_last());
        match transition(before, second.last()).1 {
            Some(bytes) => {
                assert((early + late).push(bytes) =~= early + late.push(bytes));
            },
            None => {},
        }
    }
}

/// A failed session stays failed and writes nothing, whatever happens.
pub proof fn lemma_failure_is_final(events: Seq<Event>)
    ensures
        trace(Phase::Failed, events) == (Phase::Failed, Seq::<Seq<u8>>::empty()),
    decreases events.len(),
{
    if events.len() > 0 {
        lemma_failure_is_final(events.drop_last());
    }
}

/// No command of the handshake is the start command.
proof fn lemma_setup_commands_differ_from_start(step: SetupStep)
    ensures
        command_bytes(step) != start_bytes(),
{
    match step {
        SetupStep::Reset => {
            assert(command_bytes(step)[0] == 0x76u8);
        },
        SetupStep::ChannelMode => {
            assert(command_bytes(step)[0] == 0x43u8);
        },
        SetupStep::ChannelSettings => {
            assert(command_bytes(step).len() > 2) by {
                reveal_with_fuel(channel_blocks, 2);
                let ids = channel_ids();
                assert(channel_block(ids.last()).len() == 9);
            }
        },
    }
    assert(start_bytes()[0] == 0x62u8);
    assert(start_bytes().len() == 2);
}

/// Until a session streams, it has not written the start command.
proof fn lemma_start_written_only_to_stream(events: Seq<Event>)
    ensures
        trace(Phase::Idle, events).0 != Phase::Streaming && trace(Phase::Idle, events).0
            != Phase::Stopped ==> !trace(Phase::Idle, events).1.contains(start_bytes()),
    decreases events.len(),
{
    if events.len() > 0 {
        lemma_start_written_only_to_stream(events.drop_last());
        let (before, sent) = trace(Phase::Idle, events.drop_last());
        let (after, command) = transition(before, events.last());
        if after != Phase::Streaming && after != Phase::Stopped {
            assert(before != Phase::Streaming && before != Phase::Stopped);
            match command {
                Some(bytes) => {
                    assert(bytes != start_bytes()) by {
                        lemma_setup_commands_differ_from_start(SetupStep::Reset);
                        lemma_setup_commands_differ_from_start(SetupStep::ChannelMode);
                        lemma_setup_commands_differ_from_start(SetupStep::ChannelSettings);
                    }
                    assert forall|i: int| 0 <= i < sent.push(bytes).len() implies sent.push(
                        bytes,
                    )[i] != start_bytes() by {
                        if i < sent.len() {
                            assert(sent.contains(sent[i]));
                        }
                    }
                },
                None => {},
            }
        }
    }
}

/// A failed handshake keeps the board from streaming. Let a new session go
/// through any events that leave it waiting for the reply to a setup step,
/// and let the reply that comes lack the acknowledgement of that step. Then
/// the session fails, and whatever happens afterwards, it stays failed and
/// the start command is not among the commands it has written or will write.
pub proof fn lemma_setup_failure_blocks_streaming(
    before: Seq<Event>,
    step: SetupStep,
    reply: Seq<u8>,
    after: Seq<Event>,
)
    requires
        trace(Phase::Idle, before).0 == Phase::AwaitingReply(step),
        !occurs(reply, acknowledgement(step)),
    ensures
        transition(Phase::AwaitingReply(step), Event::Reply(reply)) == (
            Phase::Failed,
            None::<Seq<u8>>,
        ),
        trace(Phase::Idle, before + seq![Event::Reply(reply)] + after).0 == Phase::Failed,
        !trace(Phase::Idle, before + seq![Event::Reply(reply)] + after).1.contains(start_bytes()),
{
    let failing = before + seq![Event::Reply(reply)];
    assert(failing.drop_last() =~= before);
    assert(failing.last() == Event::Reply(reply));
    assert(trace(Phase::Idle, failing).0 == Phase::Failed);
    lemma_start_written_only_to_stream(failing);
    lemma_trace_concat(Phase::Idle, failing, after);
    lemma_failure_is_final(after);
    assert(trace(Phase::Idle, failing).1 + Seq::<Seq<u8>>::empty() =~= trace(
        Phase::Idle,
        failing,
    ).1);
}

/// What a session holds, as plain values.
#[verifier::ext_equal]
pub struct SessionView {
    /// Where the session stands.
    pub phase: Phase,
    /// The state of the decoding pipeline.
    pub decoder: DecoderView,
}

/// Why a reply could not be taken.
#[derive(Debug, Clone, Copy, PartialEq, Eq, Structural)]
pub enum SetupError {
    /// No reply is awaited: no setup is under way.
    NotAwaited,
    /// The reply to this step lacks its acknowledgement. The session has
    /// failed.
    NotAcknowledged(SetupStep),
}

/// One connection to the board.
pub struct Session {
    phase: Phase,
    decoder: Decoder,
}

impl View for Session {
    type V = SessionView;

    closed spec fn view(&self) -> SessionView {
        SessionView { phase: self.phase, decoder: self.decoder@ }
    }
}

/// The bytes of a command that was handed out, if one was.
pub open spec fn written(command: Option<Vec<u8>>) -> Option<Seq<u8>> {
    match command {
        Some(bytes) => Some(bytes@),
        None => None,
    }
}

impl Session {
    /// A session on which nothing has happened yet.
    pub fn new() -> (session: Self)
        ensures
            session@ == (SessionView { phase: Phase::Idle, decoder: fresh() }),
    {
        Session { phase: Phase::Idle, decoder: Decoder::new() }
    }

    /// Where the session stands.
    pub fn phase(&self) -> (phase: Phase)
        ensures
            phase == self@.phase,
    {
        self.phase
    }

    /// Opens the setup handshake. An idle session hands out the first
    /// command; any other session refuses and stays as it is.
    pub fn begin_setup(&mut self) -> (command: Option<Vec<u8>>)
        ensures
            (final(self)@.phase, written(command)) == transition(
                old(self)@.phase,
                Event::BeginSetup,
            ),
            final(self)@.decoder == old(self)@.decoder,
            command is Some <==> old(self)@.phase == Phase::Idle,
    {
        match self.phase {
            Phase::Idle => {
                self.phase = Phase::AwaitingReply(SetupStep::Reset);
                Some(SetupStep::Reset.command())
            },
            _ => None,
        }
    }

    /// Takes the board's reply to the setup command that is out. A reply
    /// that holds the acknowledgement moves the handshake on: the result is
    /// the next command, or nothing once the last step is through. A reply
    /// that lacks it fails the session.
    pub fn reply(&mut self, reply: &[u8]) -> (outcome: Result<Option<Vec<u8>>, SetupError>)
        ensures
            final(self)@.phase == transition(old(self)@.phase, Event::Reply(reply@)).0,
            final(self)@.decoder == old(self)@.decoder,
            match outcome {
                Ok(command) => {
                    &&& old(self)@.phase matches Phase::AwaitingReply(step)
                    &&& occurs(reply@, acknowledgement(step))
                    &&& written(command) == transition(old(self)@.phase, Event::Reply(reply@)).1
                },
                Err(SetupError::NotAwaited) => !(old(self)@.phase is AwaitingReply),
                Err(SetupError::NotAcknowledged(failed)) => {
                    &&& old(self)@.phase == Phase::AwaitingReply(failed)
                    &&& !occurs(reply@, acknowledgement(failed))
                    &&& final(self)@.phase == Phase::Failed
                },
            },
    {
        match self.phase {
            Phase::AwaitingReply(step) => {
                if !step.acknowledged_by(reply) {
                    self.phase = Phase::Failed;
                    Err(SetupError::NotAcknowledged(step))
                } else {
                    match step.following() {
                        Some(following) => {
                            self.phase = Phase::AwaitingReply(following);
                            Ok(Some(following.command()))
                        },
                        None => {
                            self.phase = Phase::Ready;
                            Ok(None)
                        },
                    }
                }
            },
            _ => Err(SetupError::NotAwaited),
        }
    }

    /// Asks for streaming to start. A session that is idle or ready hands
    /// out the start command; any other session refuses and stays as it is.
    pub fn start(&mut self) -> (command: Option<Vec<u8>>)
        ensures
            (final(self)@.phase, written(command)) == transition(old(self)@.phase, Event::Start),
            final(self)@.decoder == old(self)@.decoder,
            command is Some <==> old(self)@.phase == Phase::Idle || old(self)@.phase
                == Phase::Ready,
    {
        match self.phase {
            Phase::Idle | Phase::Ready => {
                self.phase = Phase::Streaming;
                Some(start_command())
            },
            _ => None,
        }
    }

    /// Takes in the bytes of one read of the stream and returns the readings
    /// that they complete, oldest first. A session that does not stream
    /// ignores the bytes.
    pub fn receive(&mut self, bytes: &[u8]) -> (readings: Vec<Reading>)
        ensures
            final(self)@.phase == old(self)@.phase,
            old(self)@.phase == Phase::Streaming ==> (final(self)@.decoder, readings@) == absorb(
                old(self)@.decoder,
                bytes@,
            ),
            old(self)@.phase != Phase::Streaming ==> final(self)@.decoder == old(self)@.decoder
                && readings@ == Seq::<Reading>::empty(),
            old(self)@.decoder.slots.well_formed() ==> {
                &&& final(self)@.decoder.slots.well_formed()
                &&& forall|k: int|
                    0 <= k < readings@.len() ==> is_matched_pair(#[trigger] readings@[k])
            },
    {
        match self.phase {
            Phase::Streaming => self.decoder.feed(bytes),
            _ => Vec::new(),
        }
    }

    /// Asks for streaming to stop. A streaming session hands out the stop
    /// command; any other session stays as it is.
    pub fn stop(&mut self) -> (command: Option<Vec<u8>>)
        ensures
            (final(self)@.phase, written(command)) == transition(old(self)@.phase, Event::Stop),
            final(self)@.decoder == old(self)@.decoder,
            command is Some <==> old(self)@.phase == Phase::Streaming,
    {
        match self.phase {
            Phase::Streaming => {
                self.phase = Phase::Stopped;
                Some(stop_command())
            },
            _ => None,
        }
    }
}

} // verus!
