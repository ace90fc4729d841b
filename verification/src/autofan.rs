//! The engine that callers hold.
//!
//! `CoolboxAutofan` keeps the state that the reader and the callers share:
//! the command flags, the accumulation buffers, the reply slot, the
//! subscribers and the life of the reader. Every method is one atomic step
//! of the transition system in [`crate::protocol`]. The owner of the port
//! calls them under one lock: the reader after every read, a caller around
//! writing, settling and waiting.
use crate::bus::BroadcastBus;
use crate::framing::{Framer, ReadEvent};
use crate::protocol::{
    alive, checked_exit, command_answer, commanded, delivery, exit_asked, initial, inv,
    listened, listener_answer, listener_result, polled, replied, subscribed, subscription,
    unsubscribed,
    Answer, CommandEvent, CommandPhase, Delivery, EngineError, EngineState, ListenerAction,
    ListenerStatus, MAX_SUBSCRIBERS, POST_WRITE_SETTLE_MS, QUEUE_DEPTH, REPLY_WAIT_MS,
};
use vstd::prelude::*;

verus! {

/// What the caller does next for its command.
#[derive(Clone, PartialEq, Eq, Debug)]
pub enum CommandAction {
    /// Write the bytes of the command to the port.
    Write,
    /// Let this many milliseconds pass.
    Settle(u64),
    /// Wait for a reply, for at most this many milliseconds.
    Await(u64),
    /// The command has ended with this reply.
    Reply(String),
    /// The command has ended with a failure.
    Failed(EngineError),
    /// The report does not fit the phase the command is in; nothing changed.
    Busy,
}

impl View for CommandAction {
    type V = Answer;

    open spec fn view(&self) -> Answer {
        match self {
            CommandAction::Write => Answer::Write,
            CommandAction::Settle(millis) => Answer::Settle(*millis),
            CommandAction::Await(millis) => Answer::Await(*millis),
            CommandAction::Reply(text) => Answer::Reply(text@),
            CommandAction::Failed(error) => Answer::Failed(*error),
            CommandAction::Busy => Answer::Busy,
        }
    }
}

/// What a subscriber gets when it asks for its next chunk.
#[derive(Clone, PartialEq, Eq, Debug)]
pub enum Received {
    /// The oldest chunk that waited for it.
    Chunk(Vec<u8>),
    /// Nothing waits; more may come.
    Empty,
    /// Nothing waits and nothing will come.
    Closed,
}

impl View for Received {
    type V = Delivery;

    open spec fn view(&self) -> Delivery {
        match self {
            Received::Chunk(bytes) => Delivery::Chunk(bytes@),
            Received::Empty => Delivery::Empty,
            Received::Closed => Delivery::Closed,
        }
    }
}

/// The shared state of the communication engine.
pub struct CoolboxAutofan {
    tty_port_path: Option<String>,
    framer: Framer,
    command_started_flag: bool,
    command_delivered_flag: bool,
    phase: CommandPhase,
    reply_slot: Option<String>,
    stream_bus: BroadcastBus,
    listening_exit_flag: bool,
    listener: ListenerStatus,
}

impl View for CoolboxAutofan {
    type V = EngineState;

    closed spec fn view(&self) -> EngineState {
        EngineState {
            device: match self.tty_port_path {
                Some(path) => Some(path@),
                None => None,
            },
            in_progress: self.command_started_flag,
            fully_sent: self.command_delivered_flag,
            phase: self.phase,
            buffers: self.framer@,
            slot: match self.reply_slot {
                Some(text) => Some(text@),
                None => None,
            },
            queues: self.stream_bus.queues(),
            depth: self.stream_bus.depth(),
            limit: self.stream_bus.limit(),
            next_id: self.stream_bus.next_id(),
            exit_requested: self.listening_exit_flag,
            listener: self.listener,
        }
    }
}

impl CoolboxAutofan {
    /// The engine's invariant holds and its subscribers are consistently
    /// kept.
    pub closed spec fn wf(&self) -> bool {
        self.stream_bus.wf() && inv(self@)
    }

    /// A well-formed engine is in a state that satisfies the invariant.
    pub proof fn lemma_wf_inv(&self)
        requires
            self.wf(),
        ensures
            inv(self@),
    {
    }

    /// The engine for a port that has just been opened: no command in flight,
    /// nothing gathered, no subscribers, the reader running.
    ///
    /// `tty_port_path` is the path of the device, `None` for a simulated one.
    pub fn from_ports(tty_port_path: Option<String>) -> (engine: Self)
        ensures
            engine.wf(),
            engine@ == initial(
                match tty_port_path {
                    Some(path) => Some(path@),
                    None => None,
                },
            ),
    {
        let engine = CoolboxAutofan {
            tty_port_path,
            framer: Framer::new(),
            command_started_flag: false,
            command_delivered_flag: false,
            phase: CommandPhase::Idle,
            reply_slot: None,
            stream_bus: BroadcastBus::new(QUEUE_DEPTH, MAX_SUBSCRIBERS),
            listening_exit_flag: false,
            listener: ListenerStatus::Running,
        };
        proof {
            engine.stream_bus.lemma_bounds();
        }
        engine
    }

    /// The engine for a simulated device: as `from_ports` without a path.
    pub fn dummy() -> (engine: Self)
        ensures
            engine.wf(),
            engine@ == initial(None),
    {
        Self::from_ports(None)
    }

    /// The path of the device, where the engine is attached to a real one.
    pub fn device_path(&self) -> (path: Option<&str>)
        ensures
            match path {
                Some(p) => self@.device == Some(p@),
                None => self@.device is None,
            },
    {
        match &self.tty_port_path {
            Some(path) => Some(path.as_str()),
            None => None,
        }
    }

    /// Whether the reader has not ended.
    pub fn is_listener_alive(&self) -> (running: bool)
        ensures
            running == alive(self@),
    {
        self.listener == ListenerStatus::Running
    }

    /// Whether a reply waits for the caller.
    pub fn reply_ready(&self) -> (ready: bool)
        ensures
            ready == self@.slot.is_some(),
    {
        self.reply_slot.is_some()
    }

    /// Whether a command has been started and its reply is still gathered.
    pub fn command_in_progress(&self) -> (raised: bool)
        ensures
            raised == self@.in_progress,
    {
        self.command_started_flag
    }

    /// Whether the command in progress counts as fully sent.
    pub fn command_fully_sent(&self) -> (raised: bool)
        ensures
            raised == self@.fully_sent,
    {
        self.command_delivered_flag
    }

    /// The number of registered subscribers.
    pub fn subscriber_count(&self) -> (count: usize)
        requires
            self.wf(),
        ensures
            count == self@.queues.dom().len(),
    {
        proof {
            self.stream_bus.lemma_bounds();
        }
        self.stream_bus.subscriber_count()
    }

    /// The number of chunks that wait for subscriber `id`; zero when `id` is
    /// not registered.
    pub fn pending(&self, id: u64) -> (count: usize)
        requires
            self.wf(),
        ensures
            count == if self@.queues.contains_key(id) {
                self@.queues[id].len()
            } else {
                0
            },
    {
        self.stream_bus.pending(id)
    }

    /// How far the command in flight has got.
    pub fn command_phase(&self) -> (phase: CommandPhase)
        ensures
            phase == self@.phase,
    {
        self.phase
    }

    /// The reader's look at the exit flag before a read.
    ///
    /// Returns whether the reader goes on to read. A reader that was asked to
    /// stop ends here without a failure.
    pub fn should_listen(&mut self) -> (go_on: bool)
        requires
            old(self).wf(),
        ensures
            final(self).wf(),
            final(self)@ == checked_exit(old(self)@),
            go_on == alive(final(self)@),
    {
        if self.listener == ListenerStatus::Running && self.listening_exit_flag {
            self.listener = ListenerStatus::Stopped;
        }
        self.listener == ListenerStatus::Running
    }

    /// Completes the reply of the command in flight with `response`.
    ///
    /// The response is handed to the caller if one waits and the slot is
    /// free, and is dropped otherwise. Either way nothing is left in the
    /// reply buffer and both command flags are cleared.
    pub fn complete_reply(&mut self, response: String)
        requires
            old(self).wf(),
        ensures
            final(self).wf(),
            final(self)@ == replied(old(self)@, response@),
    {
        if self.phase == CommandPhase::Awaiting && self.reply_slot.is_none() {
            self.reply_slot = Some(response);
        }
        self.framer.clear_command_buffer();
        self.command_started_flag = false;
        self.command_delivered_flag = false;
    }

    /// One step of the reader: takes what a read came to.
    pub fn listening_step(&mut self, event: ReadEvent) -> (action: ListenerAction)
        requires
            old(self).wf(),
        ensures
            final(self).wf(),
            final(self)@ == listened(old(self)@, event),
            action == listener_answer(old(self)@, event),
    {
        if self.listener != ListenerStatus::Running {
            return ListenerAction::Stop;
        }
        if event == ReadEvent::Failed {
            self.listener = ListenerStatus::Failed;
            return ListenerAction::Stop;
        }
        proof {
            self.stream_bus.lemma_bounds();
        }
        let flush = self.framer.accept(
            event,
            self.command_started_flag,
            self.command_delivered_flag,
        );
        match flush.reply {
            Some(response) => {
                self.complete_reply(response);
            },
            None => {},
        }
        match flush.chunk {
            Some(to_broadcast) => {
                self.stream_bus.broadcast(&to_broadcast);
            },
            None => {},
        }
        proof {
            self.stream_bus.lemma_bounds();
            assert(self@.queues =~= listened(old(self)@, event).queues);
            assert(self@ == listened(old(self)@, event));
        }
        ListenerAction::Read
    }

    /// One step of a command: takes the caller's report and says what to do
    /// next.
    ///
    /// A command goes through `Submit`, `Written`, `Settled` and `WaitEnded`.
    /// Only one command is in flight at a time: a `Submit` while another is in
    /// flight is answered with `Busy` and changes nothing.
    pub fn send_command(&mut self, event: CommandEvent) -> (action: CommandAction)
        requires
            old(self).wf(),
        ensures
            final(self).wf(),
            final(self)@ == commanded(old(self)@, event),
            action@ == command_answer(old(self)@, event),
    {
        match (self.phase, event) {
            (CommandPhase::Idle, CommandEvent::Submit) => {
                self.command_started_flag = true;
                self.phase = CommandPhase::Writing;
                CommandAction::Write
            },
            (CommandPhase::Writing, CommandEvent::Written) => {
                self.phase = CommandPhase::Settling;
                CommandAction::Settle(POST_WRITE_SETTLE_MS)
            },
            (CommandPhase::Writing, CommandEvent::WriteFailed) => {
                self.phase = CommandPhase::Idle;
                CommandAction::Failed(EngineError::WriteFailed)
            },
            (CommandPhase::Settling, CommandEvent::Settled) => {
                self.command_started_flag = true;
                self.command_delivered_flag = true;
                self.phase = CommandPhase::Awaiting;
                CommandAction::Await(REPLY_WAIT_MS)
            },
            (CommandPhase::Awaiting, CommandEvent::WaitEnded) => {
                self.phase = CommandPhase::Idle;
                match self.reply_slot.take() {
                    Some(response) => CommandAction::Reply(response),
                    None => CommandAction::Failed(EngineError::NoReply),
                }
            },
            _ => CommandAction::Busy,
        }
    }

    /// Registers a new subscriber and returns its identifier, or `None` when
    /// the engine admits no more.
    ///
    /// The subscriber gets what is broadcast from now on and nothing of what
    /// was broadcast before.
    pub fn subscribe(&mut self) -> (id: Option<u64>)
        requires
            old(self).wf(),
        ensures
            final(self).wf(),
            final(self)@ == subscribed(old(self)@),
            id == subscription(old(self)@),
    {
        proof {
            self.stream_bus.lemma_bounds();
        }
        let id = self.stream_bus.subscribe();
        proof {
            self.stream_bus.lemma_bounds();
            assert(self@.queues =~= subscribed(old(self)@).queues);
        }
        id
    }

    /// Drops subscriber `id` together with whatever still waits for it.
    pub fn unsubscribe(&mut self, id: u64)
        requires
            old(self).wf(),
        ensures
            final(self).wf(),
            final(self)@ == unsubscribed(old(self)@, id),
    {
        proof {
            self.stream_bus.lemma_bounds();
        }
        let _ = self.stream_bus.unsubscribe(id);
        proof {
            self.stream_bus.lemma_bounds();
        }
    }

    /// Hands subscriber `id` its next chunk.
    pub fn poll(&mut self, id: u64) -> (received: Received)
        requires
            old(self).wf(),
        ensures
            final(self).wf(),
            final(self)@ == polled(old(self)@, id),
            received@ == delivery(old(self)@, id),
    {
        proof {
            self.stream_bus.lemma_bounds();
        }
        if !self.stream_bus.is_subscribed(id) {
            return Received::Closed;
        }
        let taken = self.stream_bus.recv(id);
        proof {
            self.stream_bus.lemma_bounds();
        }
        match taken {
            Some(chunk) => Received::Chunk(chunk),
            None => {
                assert(self@.queues =~= old(self)@.queues);
                if self.listening_exit_flag && self.listener != ListenerStatus::Running {
                    Received::Closed
                } else {
                    Received::Empty
                }
            },
        }
    }

    /// Asks the reader to stop and says how it ended, if it has.
    ///
    /// `None` means that the reader still runs: it will stop at its next look
    /// at the exit flag, and the caller asks again once it has.
    pub fn join(&mut self) -> (ended: Option<Result<(), EngineError>>)
        requires
            old(self).wf(),
        ensures
            final(self).wf(),
            final(self)@ == exit_asked(old(self)@),
            ended == listener_result(old(self)@),
    {
        self.listening_exit_flag = true;
        match self.listener {
            ListenerStatus::Running => None,
            ListenerStatus::Stopped => Some(Ok(())),
            ListenerStatus::Failed => Some(Err(EngineError::ListenerFailed)),
        }
    }
}

} // verus!
