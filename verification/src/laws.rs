//! What holds of the engine in every run.
//!
//! The laws are stated over the transition system of [`crate::protocol`],
//! to which every method of the engine is held.
use crate::bus::{deliver, fan_out};
use crate::framing::{is_boundary, Buffers, ReadEvent};
use crate::protocol::{
    alive, arriving, command_answer, commanded, completes, heard, initial, inv, listened, polled,
    ran, stepped, subscribed, unsubscribed, Answer, CommandEvent, CommandPhase, EngineError,
    EngineState, Step,
};
use crate::text::{
    ascii_text, is_ascii_bytes, lemma_ascii_is_decoded_as_it_stands, permissive_text,
};
use vstd::prelude::*;

verus! {

/// A new engine satisfies the invariant.
pub proof fn lemma_inv_initial(device: Option<Seq<char>>)
    ensures
        inv(initial(device)),
{
    assert(initial(device).queues.dom() =~= Set::<u64>::empty());
}

/// A read event keeps the invariant.
pub proof fn lemma_inv_listened(s: EngineState, event: ReadEvent)
    requires
        inv(s),
    ensures
        inv(listened(s, event)),
{
    let t = listened(s, event);
    assert(t.queues.dom() =~= s.queues.dom());
}

/// A report about a command keeps the invariant.
pub proof fn lemma_inv_commanded(s: EngineState, event: CommandEvent)
    requires
        inv(s),
    ensures
        inv(commanded(s, event)),
{
}

/// Registering a subscriber keeps the invariant.
pub proof fn lemma_inv_subscribed(s: EngineState)
    requires
        inv(s),
    ensures
        inv(subscribed(s)),
{
    let t = subscribed(s);
    if t != s {
        let id = s.next_id as u64;
        assert(!s.queues.contains_key(id));
        assert(t.queues.dom() =~= s.queues.dom().insert(id));
    }
}

/// Dropping a subscriber keeps the invariant.
pub proof fn lemma_inv_unsubscribed(s: EngineState, id: u64)
    requires
        inv(s),
    ensures
        inv(unsubscribed(s, id)),
{
    assert(unsubscribed(s, id).queues.dom() =~= s.queues.dom().remove(id));
}

/// Handing out a chunk keeps the invariant.
pub proof fn lemma_inv_polled(s: EngineState, id: u64)
    requires
        inv(s),
    ensures
        inv(polled(s, id)),
{
    assert(polled(s, id).queues.dom() =~= s.queues.dom());
}

/// Every step keeps the invariant.
pub proof fn lemma_inv_stepped(s: EngineState, step: Step)
    requires
        inv(s),
    ensures
        inv(stepped(s, step)),
{
    match step {
        Step::CheckExit => {},
        Step::Read(event) => lemma_inv_listened(s, event),
        Step::CompleteReply(text) => {},
        Step::Command(event) => lemma_inv_commanded(s, event),
        Step::Subscribe => lemma_inv_subscribed(s),
        Step::Unsubscribe(id) => lemma_inv_unsubscribed(s, id),
        Step::Poll(id) => lemma_inv_polled(s, id),
        Step::Join => {},
    }
}

/// The invariant holds after every run of steps from a state in which it
/// holds.
pub proof fn lemma_inv_ran(s: EngineState, steps: Seq<Step>)
    requires
        inv(s),
    ensures
        inv(ran(s, steps)),
    decreases steps.len(),
{
    if steps.len() > 0 {
        lemma_inv_ran(s, steps.drop_last());
        lemma_inv_stepped(ran(s, steps.drop_last()), steps.last());
    }
}

/// One reply at a time, and none left over: whatever steps an engine has
/// taken since it was made, a reply is in the slot only while a caller waits
/// for it, and then the command flags are already cleared. So a command that
/// is submitted finds the slot empty, and the reply it gets was put there
/// while it was waiting.
pub proof fn lemma_no_stale_reply(device: Option<Seq<char>>, steps: Seq<Step>)
    ensures
        ({
            let s = ran(initial(device), steps);
            &&& s.phase != CommandPhase::Awaiting ==> s.slot is None
            &&& s.slot is Some ==> !s.in_progress && !s.fully_sent
            &&& command_answer(s, CommandEvent::Submit) is Write ==> s.slot is None && commanded(
                s,
                CommandEvent::Submit,
            ).slot is None
            &&& commanded(s, CommandEvent::WaitEnded).slot is None
        }),
{
    lemma_inv_initial(device);
    lemma_inv_ran(initial(device), steps);
}

/// A reply in the slot is never replaced: a read event puts a reply into the
/// slot only when the slot is empty, a caller waits, and the reply of its
/// command completes; the reply is then the text of what was gathered for
/// the command.
pub proof fn lemma_reply_put_once(s: EngineState, event: ReadEvent)
    ensures
        s.slot is Some ==> listened(s, event).slot == s.slot,
        s.slot is None && listened(s, event).slot is Some ==> {
            &&& s.phase == CommandPhase::Awaiting
            &&& s.in_progress
            &&& s.fully_sent
            &&& is_boundary(event)
            &&& listened(s, event).slot == Some(permissive_text(s.buffers.reply))
        },
{
}

/// The bytes among a run of read events, in their order.
pub open spec fn bytes_of(events: Seq<ReadEvent>) -> Seq<u8>
    decreases events.len(),
{
    if events.len() == 0 {
        Seq::empty()
    } else {
        match events.last() {
            ReadEvent::Byte(byte) => bytes_of(events.drop_last()).push(byte),
            _ => bytes_of(events.drop_last()),
        }
    }
}

/// Whether none of the reads failed.
pub open spec fn no_failure(events: Seq<ReadEvent>) -> bool {
    forall|i: int| 0 <= i < events.len() ==> !(#[trigger] events[i] is Failed)
}

/// While no command is in progress, nothing that is read reaches the reply
/// slot or the reply buffer: after any run of read events the slot, the
/// reply buffer and the command flags are what they were.
pub proof fn lemma_idle_reads_never_reach_reply(s: EngineState, events: Seq<ReadEvent>)
    requires
        !s.in_progress,
    ensures
        heard(s, events).slot == s.slot,
        heard(s, events).buffers.reply == s.buffers.reply,
        heard(s, events).in_progress == s.in_progress,
        heard(s, events).fully_sent == s.fully_sent,
        heard(s, events).phase == s.phase,
    decreases events.len(),
{
    if events.len() > 0 {
        lemma_idle_reads_never_reach_reply(s, events.drop_last());
    }
}

/// While a command is in progress and not yet fully sent, what is read is
/// gathered for its reply and not released, whatever boundaries pass: after
/// any run of read events the slot and the flags are what they were, and, as
/// long as the reader runs and no read fails, the reply buffer has grown by
/// exactly the bytes read.
pub proof fn lemma_early_reads_are_kept(s: EngineState, events: Seq<ReadEvent>)
    requires
        s.in_progress,
        !s.fully_sent,
    ensures
        heard(s, events).slot == s.slot,
        heard(s, events).in_progress,
        !heard(s, events).fully_sent,
        heard(s, events).phase == s.phase,
        alive(s) && no_failure(events) ==> alive(heard(s, events)) && heard(
            s,
            events,
        ).buffers.reply == s.buffers.reply + bytes_of(events),
        !alive(s) ==> heard(s, events) == s,
    decreases events.len(),
{
    if events.len() == 0 {
        assert(s.buffers.reply + bytes_of(events) =~= s.buffers.reply);
    } else {
        let before = events.drop_last();
        lemma_early_reads_are_kept(s, before);
        if alive(s) && no_failure(events) {
            assert(no_failure(before)) by {
                assert forall|i: int| 0 <= i < before.len() implies !(
                #[trigger] before[i] is Failed) by {
                    assert(before[i] == events[i]);
                }
            }
            assert(!(events[events.len() - 1] is Failed));
            let mid = heard(s, before);
            match events.last() {
                ReadEvent::Byte(byte) => {
                    assert(mid.buffers.reply.push(byte) =~= s.buffers.reply + bytes_of(events));
                },
                _ => {},
            }
        }
    }
}

/// A run of bytes that arrive without a pause joins the buffers as it
/// stands: the broadcast buffer always, the reply buffer while a command is
/// in progress. Nothing is released, and nothing else changes.
pub proof fn lemma_heard_arriving(s: EngineState, bytes: Seq<u8>)
    requires
        alive(s),
    ensures
        heard(s, arriving(bytes)) == (EngineState {
            buffers: Buffers {
                broadcast: s.buffers.broadcast + bytes,
                reply: if s.in_progress {
                    s.buffers.reply + bytes
                } else {
                    s.buffers.reply
                },
            },
            ..s
        }),
    decreases bytes.len(),
{
    let events = arriving(bytes);
    if bytes.len() == 0 {
        assert(s.buffers.broadcast + bytes =~= s.buffers.broadcast);
        assert(s.buffers.reply + bytes =~= s.buffers.reply);
        assert(heard(s, events).buffers == s.buffers);
    } else {
        let front = bytes.drop_last();
        lemma_heard_arriving(s, front);
        assert(events.drop_last() =~= arriving(front));
        assert(events.last() == ReadEvent::Byte(bytes.last()));
        assert((s.buffers.broadcast + front).push(bytes.last()) =~= s.buffers.broadcast
            + bytes);
        assert((s.buffers.reply + front).push(bytes.last()) =~= s.buffers.reply + bytes);
    }
}

/// A reader that has ended takes nothing: whatever is reported as read, the
/// state stays as it is.
pub proof fn lemma_ended_reader_takes_nothing(s: EngineState, events: Seq<ReadEvent>)
    requires
        !alive(s),
    ensures
        heard(s, events) == s,
    decreases events.len(),
{
    if events.len() > 0 {
        lemma_ended_reader_takes_nothing(s, events.drop_last());
    }
}

/// Whether the engine is at rest: the reader runs, no command is in flight,
/// and nothing is left of an earlier one.
pub open spec fn at_rest(s: EngineState) -> bool {
    &&& alive(s)
    &&& s.phase == CommandPhase::Idle
    &&& !s.in_progress
    &&& !s.fully_sent
    &&& s.slot is None
    &&& s.buffers.reply.len() == 0
}

/// The state in which a caller waits for the reply to a command that it
/// submitted to `s`, after `early` arrived while the command was written and
/// settling and `late` arrived afterwards, without a pause.
pub open spec fn waiting_after(s: EngineState, early: Seq<u8>, late: Seq<u8>) -> EngineState {
    let writing = commanded(s, CommandEvent::Submit);
    let settling = heard(commanded(writing, CommandEvent::Written), arriving(early));
    heard(commanded(settling, CommandEvent::Settled), arriving(late))
}

/// Round trip: a command that is submitted to an engine at rest is written,
/// settles for the settle delay and is waited for within the reply bound;
/// when the board answers with `early` and then `late` and falls silent, the
/// caller gets exactly the text of those bytes, and the engine is at rest
/// again.
pub proof fn lemma_round_trip(s: EngineState, early: Seq<u8>, late: Seq<u8>, silence: ReadEvent)
    requires
        at_rest(s),
        is_boundary(silence),
    ensures
        command_answer(s, CommandEvent::Submit) == Answer::Write,
        command_answer(commanded(s, CommandEvent::Submit), CommandEvent::Written)
            == Answer::Settle(200),
        command_answer(
            heard(
                commanded(commanded(s, CommandEvent::Submit), CommandEvent::Written),
                arriving(early),
            ),
            CommandEvent::Settled,
        ) == Answer::Await(1000),
        command_answer(
            listened(waiting_after(s, early, late), silence),
            CommandEvent::WaitEnded,
        ) == Answer::Reply(permissive_text(early + late)),
        at_rest(
            commanded(listened(waiting_after(s, early, late), silence), CommandEvent::WaitEnded),
        ),
{
    let writing = commanded(s, CommandEvent::Submit);
    let written = commanded(writing, CommandEvent::Written);
    lemma_heard_arriving(written, early);
    let settling = heard(written, arriving(early));
    let awaiting = commanded(settling, CommandEvent::Settled);
    lemma_heard_arriving(awaiting, late);
    let waiting = heard(awaiting, arriving(late));
    assert(s.buffers.reply =~= Seq::<u8>::empty());
    assert(waiting.buffers.reply =~= early + late);
}

/// No reply: as long as the line does not fall silent while the caller
/// waits, and whenever the reader has ended, the command ends with the
/// failure that no reply arrived. The caller is never asked to wait longer
/// than the reply bound, so the command ends.
pub proof fn lemma_no_reply_without_boundary(s: EngineState, arrived: Seq<u8>)
    requires
        s.phase == CommandPhase::Awaiting,
        s.slot is None,
    ensures
        command_answer(heard(s, arriving(arrived)), CommandEvent::WaitEnded) == Answer::Failed(
            EngineError::NoReply,
        ),
        commanded(heard(s, arriving(arrived)), CommandEvent::WaitEnded).phase
            == CommandPhase::Idle,
{
    if alive(s) {
        lemma_heard_arriving(s, arrived);
    } else {
        lemma_ended_reader_takes_nothing(s, arriving(arrived));
    }
}

/// After the reader has ended, a command still comes to an end: it is
/// written and waited for as always, nothing that is reported as read in
/// between changes anything, and the wait ends with the failure that no
/// reply arrived.
pub proof fn lemma_command_fails_after_reader_ended(
    s: EngineState,
    first: Seq<ReadEvent>,
    second: Seq<ReadEvent>,
    third: Seq<ReadEvent>,
)
    requires
        inv(s),
        !alive(s),
        s.phase == CommandPhase::Idle,
    ensures
        ({
            let writing = heard(commanded(s, CommandEvent::Submit), first);
            let settling = heard(commanded(writing, CommandEvent::Written), second);
            let waiting = heard(commanded(settling, CommandEvent::Settled), third);
            &&& command_answer(s, CommandEvent::Submit) == Answer::Write
            &&& command_answer(writing, CommandEvent::Written) == Answer::Settle(200)
            &&& command_answer(settling, CommandEvent::Settled) == Answer::Await(1000)
            &&& command_answer(waiting, CommandEvent::WaitEnded) == Answer::Failed(
                EngineError::NoReply,
            )
            &&& commanded(waiting, CommandEvent::WaitEnded).phase == CommandPhase::Idle
        }),
{
    let submitted = commanded(s, CommandEvent::Submit);
    lemma_ended_reader_takes_nothing(submitted, first);
    let written = commanded(submitted, CommandEvent::Written);
    lemma_ended_reader_takes_nothing(written, second);
    let settled = commanded(written, CommandEvent::Settled);
    lemma_ended_reader_takes_nothing(settled, third);
}

/// Unsolicited output: bytes that arrive when nothing is gathered, followed
/// by silence, reach every subscriber as one chunk that holds exactly those
/// bytes; the broadcast buffer is empty again.
pub proof fn lemma_unsolicited_chunk(s: EngineState, bytes: Seq<u8>, silence: ReadEvent)
    requires
        alive(s),
        s.buffers.broadcast.len() == 0,
        bytes.len() > 0,
        is_boundary(silence),
    ensures
        listened(heard(s, arriving(bytes)), silence).queues == fan_out(
            s.queues,
            bytes,
            s.depth,
        ),
        listened(heard(s, arriving(bytes)), silence).buffers.broadcast.len() == 0,
        forall|id: u64| #[trigger]
            s.queues.contains_key(id) ==> listened(heard(s, arriving(bytes)), silence).queues[id]
                == deliver(s.queues[id], bytes, s.depth),
{
    lemma_heard_arriving(s, bytes);
    assert(s.buffers.broadcast + bytes =~= bytes);
}

/// The flags are raised by the caller and cleared by the reader: no report
/// about a command clears a flag, and a read event either leaves both flags
/// as they are or clears both, which it does exactly when the reply of the
/// command completes.
pub proof fn lemma_flags_cleared_by_reader_only(
    s: EngineState,
    report: CommandEvent,
    event: ReadEvent,
)
    ensures
        s.in_progress ==> commanded(s, report).in_progress,
        s.fully_sent ==> commanded(s, report).fully_sent,
        listened(s, event).in_progress == (s.in_progress && !completes(s, event)),
        listened(s, event).fully_sent == (s.fully_sent && !completes(s, event)),
        completes(s, event) ==> !listened(s, event).in_progress && !listened(
            s,
            event,
        ).fully_sent && listened(s, event).buffers.reply.len() == 0,
{
}

/// What an engine was made with stays: no run of steps changes the device it
/// is attached to, the depth of the queues, or the limit on subscribers.
pub proof fn lemma_identity_is_kept(s: EngineState, steps: Seq<Step>)
    ensures
        ran(s, steps).device == s.device,
        ran(s, steps).depth == s.depth,
        ran(s, steps).limit == s.limit,
    decreases steps.len(),
{
    if steps.len() > 0 {
        lemma_identity_is_kept(s, steps.drop_last());
    }
}

/// A reader that has ended stays ended, and ends in the same way: no run of
/// steps brings it back.
pub proof fn lemma_ended_reader_stays_ended(s: EngineState, steps: Seq<Step>)
    requires
        !alive(s),
    ensures
        ran(s, steps).listener == s.listener,
    decreases steps.len(),
{
    if steps.len() > 0 {
        lemma_ended_reader_stays_ended(s, steps.drop_last());
    }
}

/// Echo: when the board sends back exactly the ASCII bytes of a command that
/// was submitted to an engine at rest, and then falls silent, the caller gets
/// those bytes back as text.
pub proof fn lemma_echo_round_trip(s: EngineState, command: Seq<u8>, silence: ReadEvent)
    requires
        at_rest(s),
        is_ascii_bytes(command),
        is_boundary(silence),
    ensures
        command_answer(
            listened(waiting_after(s, Seq::empty(), command), silence),
            CommandEvent::WaitEnded,
        ) == Answer::Reply(ascii_text(command)),
{
    lemma_round_trip(s, Seq::empty(), command, silence);
    assert(Seq::<u8>::empty() + command =~= command);
    lemma_ascii_is_decoded_as_it_stands(command);
}

} // verus!
