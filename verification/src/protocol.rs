//! The engine as a transition system.
//!
//! The state of the engine is shared by the reader, which reports what each
//! read from the port came to, and by the caller that has a command in
//! flight, who reports how far writing and waiting have got. Each report is
//! one atomic step. This module says, over plain mathematical values, what
//! every step does to the state and what it answers; the executable engine
//! is held to these definitions.
use crate::bus::fan_out;
use crate::framing::{chunk_released, gathered, reply_completes, Buffers, ReadEvent};
use crate::text::permissive_text;
use vstd::prelude::*;

verus! {

/// Speed of the serial line, in baud.
pub const BAUD_RATE: u32 = 9600;

/// How long one read from the port may wait for a byte, in milliseconds.
pub const READ_TIMEOUT_MS: u64 = 500;

/// How long the board is given to start up after the port is opened, in
/// milliseconds.
pub const POST_CONNECTION_TIMEOUT_MS: u64 = 800;

/// How long the board is given to take a command in after it was written, in
/// milliseconds.
pub const POST_WRITE_SETTLE_MS: u64 = 200;

/// How long a caller waits for the reply to its command, in milliseconds.
pub const REPLY_WAIT_MS: u64 = 1000;

/// How many chunks may wait for one subscriber.
pub const QUEUE_DEPTH: usize = 100;

/// How many subscribers may be registered at one time.
pub const MAX_SUBSCRIBERS: usize = 64;

/// How far the command in flight has got.
#[derive(Clone, Copy, PartialEq, Eq, Debug, Structural)]
pub enum CommandPhase {
    /// No command is in flight.
    Idle,
    /// The command is being written to the port.
    Writing,
    /// The command was written; the board is given time to take it in.
    Settling,
    /// The caller waits for the reply.
    Awaiting,
}

/// What the caller reports about its command.
#[derive(Clone, Copy, PartialEq, Eq, Debug, Structural)]
pub enum CommandEvent {
    /// A command is to be sent.
    Submit,
    /// All bytes of the command were written.
    Written,
    /// Writing the command failed.
    WriteFailed,
    /// The settle delay has passed.
    Settled,
    /// The wait for the reply is over: a reply was signalled or the time
    /// allowed for it ran out.
    WaitEnded,
}

/// Why the engine failed a caller.
#[derive(Clone, Copy, PartialEq, Eq, Debug, Structural)]
pub enum EngineError {
    /// The command could not be written to the port.
    WriteFailed,
    /// No reply arrived within the time allowed.
    NoReply,
    /// The reader stopped on a read failure.
    ListenerFailed,
}

impl EngineError {
    /// The failure in words.
    pub fn describe(&self) -> (words: &'static str)
        ensures
            words@ == match self {
                EngineError::WriteFailed => "Unable to write the command to the device"@,
                EngineError::NoReply => "Unable to receive command's response from the listener"@,
                EngineError::ListenerFailed => "Unable to read from the device"@,
            },
    {
        match self {
            EngineError::WriteFailed => "Unable to write the command to the device",
            EngineError::NoReply => "Unable to receive command's response from the listener",
            EngineError::ListenerFailed => "Unable to read from the device",
        }
    }
}

/// Whether the reader runs, and how it ended.
#[derive(Clone, Copy, PartialEq, Eq, Debug, Structural)]
pub enum ListenerStatus {
    /// The reader is reading.
    Running,
    /// The reader has stopped because it was asked to.
    Stopped,
    /// The reader has stopped on a read failure.
    Failed,
}

/// What the reader does next.
#[derive(Clone, Copy, PartialEq, Eq, Debug, Structural)]
pub enum ListenerAction {
    /// Read again.
    Read,
    /// End the reader.
    Stop,
}

/// What the engine answers to a report about a command, over plain values.
pub enum Answer {
    /// Write the bytes of the command to the port.
    Write,
    /// Let this many milliseconds pass.
    Settle(u64),
    /// Wait for a reply, for at most this many milliseconds.
    Await(u64),
    /// The command has ended with this reply.
    Reply(Seq<char>),
    /// The command has ended with a failure.
    Failed(EngineError),
    /// The report does not fit the phase the command is in; nothing changed.
    /// A caller that wanted to submit waits until the command in flight has
    /// ended.
    Busy,
}

/// What a subscriber gets when it asks for its next chunk, over plain values.
pub enum Delivery {
    /// The oldest chunk that waited for it.
    Chunk(Seq<u8>),
    /// Nothing waits; more may come.
    Empty,
    /// Nothing waits and nothing will come: the subscriber is not registered,
    /// or the engine has shut down.
    Closed,
}

/// The engine's state over plain values.
pub struct EngineState {
    /// The path of the device, where the engine is attached to a real one.
    pub device: Option<Seq<char>>,
    /// A command has been started: what is read belongs to its reply.
    pub in_progress: bool,
    /// The command has been written and has settled: the next boundary ends
    /// its reply.
    pub fully_sent: bool,
    /// How far the caller has got with the command in flight.
    pub phase: CommandPhase,
    /// The accumulation buffers of the reader.
    pub buffers: Buffers,
    /// The reply that waits for the caller.
    pub slot: Option<Seq<char>>,
    /// The subscribers, each with the chunks that wait for it.
    pub queues: Map<u64, Seq<Seq<u8>>>,
    /// The most chunks that may wait for one subscriber.
    pub depth: nat,
    /// The most subscribers that may be registered at one time.
    pub limit: nat,
    /// The identifier that the next subscriber gets.
    pub next_id: nat,
    /// The reader has been asked to stop.
    pub exit_requested: bool,
    /// Whether the reader runs, and how it ended.
    pub listener: ListenerStatus,
}

/// The state of an engine that has just been made for `device`.
pub open spec fn initial(device: Option<Seq<char>>) -> EngineState {
    EngineState {
        device,
        in_progress: false,
        fully_sent: false,
        phase: CommandPhase::Idle,
        buffers: Buffers { broadcast: Seq::empty(), reply: Seq::empty() },
        slot: None,
        queues: Map::empty(),
        depth: QUEUE_DEPTH as nat,
        limit: MAX_SUBSCRIBERS as nat,
        next_id: 0,
        exit_requested: false,
        listener: ListenerStatus::Running,
    }
}

/// What holds of the engine in every state it can reach.
///
/// The command flags: a command is fully sent only while it is in progress.
/// The reply slot: a reply waits only for a caller that is waiting, and only
/// after the flags have been cleared for it; a caller that waits and has no
/// reply yet still has both flags raised, so the next boundary brings its
/// reply. The reply buffer holds bytes only while a command is in progress.
/// The subscribers are within their limit, carry identifiers that were
/// handed out, and hold no more chunks than the depth.
pub open spec fn inv(s: EngineState) -> bool {
    &&& s.fully_sent ==> s.in_progress
    &&& s.slot is Some ==> s.phase == CommandPhase::Awaiting && !s.in_progress
    &&& s.phase == CommandPhase::Awaiting && s.slot is None ==> s.in_progress && s.fully_sent
    &&& !s.in_progress ==> s.buffers.reply.len() == 0
    &&& s.queues.dom().finite()
    &&& s.queues.dom().len() <= s.limit
    &&& forall|id: u64| #[trigger]
        s.queues.contains_key(id) ==> id < s.next_id && s.queues[id].len() <= s.depth
}

/// Whether the reader still reads.
pub open spec fn alive(s: EngineState) -> bool {
    s.listener == ListenerStatus::Running
}

/// The state after the reader looked at the exit flag before a read: a reader
/// that was asked to stop has stopped.
pub open spec fn checked_exit(s: EngineState) -> EngineState {
    if alive(s) && s.exit_requested {
        EngineState { listener: ListenerStatus::Stopped, ..s }
    } else {
        s
    }
}

/// Whether the read event ends the reply of the command in flight.
pub open spec fn completes(s: EngineState, event: ReadEvent) -> bool {
    alive(s) && reply_completes(event, s.in_progress, s.fully_sent)
}

/// Whether the completed reply reaches the caller: it does when a caller is
/// waiting and the slot is free, and is dropped otherwise.
pub open spec fn delivers(s: EngineState, event: ReadEvent) -> bool {
    completes(s, event) && s.phase == CommandPhase::Awaiting && s.slot is None
}

/// The state after the reply of the command in flight was completed with
/// `text`: the text is put into the slot if a caller waits and the slot is
/// free, and is dropped otherwise; either way the reply buffer is empty and
/// both command flags are cleared.
pub open spec fn replied(s: EngineState, text: Seq<char>) -> EngineState {
    EngineState {
        slot: if s.phase == CommandPhase::Awaiting && s.slot is None {
            Some(text)
        } else {
            s.slot
        },
        in_progress: false,
        fully_sent: false,
        buffers: Buffers { broadcast: s.buffers.broadcast, reply: Seq::empty() },
        ..s
    }
}

/// The state after the reader took one read event.
///
/// A reader that has ended takes nothing. A failed read ends the reader. Any
/// other event goes through the buffers; a chunk that is released is
/// broadcast to the subscribers; a reply that completes is put into the slot
/// if a caller waits for it, and clears both command flags either way.
pub open spec fn listened(s: EngineState, event: ReadEvent) -> EngineState {
    if !alive(s) {
        s
    } else if event is Failed {
        EngineState { listener: ListenerStatus::Failed, ..s }
    } else {
        EngineState {
            buffers: gathered(s.buffers, event, s.in_progress, s.fully_sent),
            in_progress: s.in_progress && !completes(s, event),
            fully_sent: s.fully_sent && !completes(s, event),
            slot: if delivers(s, event) {
                Some(permissive_text(s.buffers.reply))
            } else {
                s.slot
            },
            queues: match chunk_released(s.buffers, event) {
                Some(chunk) => fan_out(s.queues, chunk, s.depth),
                None => s.queues,
            },
            ..s
        }
    }
}

/// What the reader does after a read event: it ends when it had ended
/// before or the read failed, and reads again otherwise.
pub open spec fn listener_answer(s: EngineState, event: ReadEvent) -> ListenerAction {
    if alive(s) && !(event is Failed) {
        ListenerAction::Read
    } else {
        ListenerAction::Stop
    }
}

/// The state after the caller's report about its command.
///
/// Submitting raises the flag that a command is in progress. A failed write
/// ends the command and leaves the flags as they are. When the settle delay
/// has passed, the command counts as fully sent. When the wait is over, the
/// slot is emptied and the command has ended. A report that does not fit the
/// phase changes nothing.
pub open spec fn commanded(s: EngineState, event: CommandEvent) -> EngineState {
    match (s.phase, event) {
        (CommandPhase::Idle, CommandEvent::Submit) => EngineState {
            in_progress: true,
            phase: CommandPhase::Writing,
            ..s
        },
        (CommandPhase::Writing, CommandEvent::Written) => EngineState {
            phase: CommandPhase::Settling,
            ..s
        },
        (CommandPhase::Writing, CommandEvent::WriteFailed) => EngineState {
            phase: CommandPhase::Idle,
            ..s
        },
        (CommandPhase::Settling, CommandEvent::Settled) => EngineState {
            in_progress: true,
            fully_sent: true,
            phase: CommandPhase::Awaiting,
            ..s
        },
        (CommandPhase::Awaiting, CommandEvent::WaitEnded) => EngineState {
            phase: CommandPhase::Idle,
            slot: None,
            ..s
        },
        _ => s,
    }
}

/// What the engine answers to the caller's report about its command.
pub open spec fn command_answer(s: EngineState, event: CommandEvent) -> Answer {
    match (s.phase, event) {
        (CommandPhase::Idle, CommandEvent::Submit) => Answer::Write,
        (CommandPhase::Writing, CommandEvent::Written) => Answer::Settle(POST_WRITE_SETTLE_MS),
        (CommandPhase::Writing, CommandEvent::WriteFailed) => Answer::Failed(
            EngineError::WriteFailed,
        ),
        (CommandPhase::Settling, CommandEvent::Settled) => Answer::Await(REPLY_WAIT_MS),
        (CommandPhase::Awaiting, CommandEvent::WaitEnded) => match s.slot {
            Some(text) => Answer::Reply(text),
            None => Answer::Failed(EngineError::NoReply),
        },
        _ => Answer::Busy,
    }
}

/// Whether a new subscriber can be registered.
pub open spec fn admits(s: EngineState) -> bool {
    s.queues.dom().len() < s.limit && s.next_id < u64::MAX
}

/// The state after a request to subscribe: where the engine admits one more,
/// the next identifier is registered with an empty queue.
pub open spec fn subscribed(s: EngineState) -> EngineState {
    if admits(s) {
        EngineState {
            queues: s.queues.insert(s.next_id as u64, Seq::empty()),
            next_id: s.next_id + 1,
            ..s
        }
    } else {
        s
    }
}

/// The identifier that a request to subscribe gets, if it gets one.
pub open spec fn subscription(s: EngineState) -> Option<u64> {
    if admits(s) {
        Some(s.next_id as u64)
    } else {
        None
    }
}

/// The state after subscriber `id` was dropped.
pub open spec fn unsubscribed(s: EngineState, id: u64) -> EngineState {
    EngineState { queues: s.queues.remove(id), ..s }
}

/// Whether the engine has shut down: the reader was asked to stop and has
/// ended.
pub open spec fn shut_down(s: EngineState) -> bool {
    s.exit_requested && !alive(s)
}

/// What subscriber `id` gets when it asks for its next chunk.
pub open spec fn delivery(s: EngineState, id: u64) -> Delivery {
    if !s.queues.contains_key(id) {
        Delivery::Closed
    } else if s.queues[id].len() > 0 {
        Delivery::Chunk(s.queues[id].first())
    } else if shut_down(s) {
        Delivery::Closed
    } else {
        Delivery::Empty
    }
}

/// The state after subscriber `id` asked for its next chunk: the chunk it
/// got, if any, has left its queue.
pub open spec fn polled(s: EngineState, id: u64) -> EngineState {
    if s.queues.contains_key(id) && s.queues[id].len() > 0 {
        EngineState { queues: s.queues.insert(id, s.queues[id].drop_first()), ..s }
    } else {
        s
    }
}

/// The state after shutdown was asked for.
pub open spec fn exit_asked(s: EngineState) -> EngineState {
    EngineState { exit_requested: true, ..s }
}

/// How the reader ended, once it has: without a failure when it stopped
/// because it was asked to, with one when a read failed. `None` while it
/// still runs.
pub open spec fn listener_result(s: EngineState) -> Option<Result<(), EngineError>> {
    match s.listener {
        ListenerStatus::Running => None,
        ListenerStatus::Stopped => Some(Ok(())),
        ListenerStatus::Failed => Some(Err(EngineError::ListenerFailed)),
    }
}

/// One step of the engine, by whoever takes it.
pub enum Step {
    /// The reader looked at the exit flag.
    CheckExit,
    /// The reader took a read event.
    Read(ReadEvent),
    /// The reply of the command in flight was completed with a text.
    CompleteReply(Seq<char>),
    /// A caller reported about its command.
    Command(CommandEvent),
    /// A subscriber was registered, if the engine admitted it.
    Subscribe,
    /// A subscriber was dropped.
    Unsubscribe(u64),
    /// A subscriber asked for its next chunk.
    Poll(u64),
    /// Shutdown was asked for.
    Join,
}

/// The state after one step.
pub open spec fn stepped(s: EngineState, step: Step) -> EngineState {
    match step {
        Step::CheckExit => checked_exit(s),
        Step::Read(event) => listened(s, event),
        Step::CompleteReply(text) => replied(s, text),
        Step::Command(event) => commanded(s, event),
        Step::Subscribe => subscribed(s),
        Step::Unsubscribe(id) => unsubscribed(s, id),
        Step::Poll(id) => polled(s, id),
        Step::Join => exit_asked(s),
    }
}

/// The state after a run of steps, taken in their order.
pub open spec fn ran(s: EngineState, steps: Seq<Step>) -> EngineState
    decreases steps.len(),
{
    if steps.len() == 0 {
        s
    } else {
        stepped(ran(s, steps.drop_last()), steps.last())
    }
}

/// The state after the reader took a run of read events, with no other step
/// in between.
pub open spec fn heard(s: EngineState, events: Seq<ReadEvent>) -> EngineState
    decreases events.len(),
{
    if events.len() == 0 {
        s
    } else {
        listened(heard(s, events.drop_last()), events.last())
    }
}

/// The read events of a device that sends exactly `bytes`, one after the
/// other, without a pause.
pub open spec fn arriving(bytes: Seq<u8>) -> Seq<ReadEvent> {
    Seq::new(bytes.len(), |i: int| ReadEvent::Byte(bytes[i]))
}

} // verus!
