use coolbox_autofan::autofan::{CommandAction, CoolboxAutofan, Received};
use coolbox_autofan::framing::ReadEvent;
use coolbox_autofan::protocol::{
    CommandEvent, CommandPhase, EngineError, ListenerAction, BAUD_RATE, MAX_SUBSCRIBERS,
    POST_CONNECTION_TIMEOUT_MS, POST_WRITE_SETTLE_MS, QUEUE_DEPTH, READ_TIMEOUT_MS,
    REPLY_WAIT_MS,
};

fn feed(engine: &mut CoolboxAutofan, bytes: &[u8]) {
    for byte in bytes {
        assert_eq!(engine.listening_step(ReadEvent::Byte(*byte)), ListenerAction::Read);
    }
}

fn start_waiting(engine: &mut CoolboxAutofan) {
    assert_eq!(engine.send_command(CommandEvent::Submit), CommandAction::Write);
    assert_eq!(engine.send_command(CommandEvent::Written), CommandAction::Settle(200));
    assert_eq!(engine.send_command(CommandEvent::Settled), CommandAction::Await(1000));
}

#[test]
fn fixed_parameters() {
    assert_eq!(BAUD_RATE, 9600);
    assert_eq!(READ_TIMEOUT_MS, 500);
    assert_eq!(POST_CONNECTION_TIMEOUT_MS, 800);
    assert_eq!(POST_WRITE_SETTLE_MS, 200);
    assert_eq!(REPLY_WAIT_MS, 1000);
    assert_eq!(QUEUE_DEPTH, 100);
    assert_eq!(MAX_SUBSCRIBERS, 64);
}

#[test]
fn new_engine_is_at_rest() {
    let engine = CoolboxAutofan::dummy();
    assert!(engine.is_listener_alive());
    assert_eq!(engine.device_path(), None);
    assert_eq!(engine.command_phase(), CommandPhase::Idle);
    assert!(!engine.command_in_progress());
    assert!(!engine.command_fully_sent());
    assert!(!engine.reply_ready());
    assert_eq!(engine.subscriber_count(), 0);
}

#[test]
fn device_path_is_kept() {
    let engine = CoolboxAutofan::from_ports(Some("/dev/ttyUSB0".to_string()));
    assert_eq!(engine.device_path(), Some("/dev/ttyUSB0"));
    assert!(engine.is_listener_alive());
}

#[test]
fn loopback_round_trip_returns_ping() {
    let mut engine = CoolboxAutofan::dummy();
    assert_eq!(engine.send_command(CommandEvent::Submit), CommandAction::Write);
    assert!(engine.command_in_progress());
    assert!(!engine.command_fully_sent());
    assert_eq!(engine.send_command(CommandEvent::Written), CommandAction::Settle(200));
    assert_eq!(engine.send_command(CommandEvent::Settled), CommandAction::Await(1000));
    assert!(engine.command_fully_sent());
    feed(&mut engine, b"PING");
    assert!(!engine.reply_ready());
    assert_eq!(engine.listening_step(ReadEvent::TimedOut), ListenerAction::Read);
    assert!(engine.reply_ready());
    assert!(!engine.command_in_progress());
    assert!(!engine.command_fully_sent());
    assert_eq!(
        engine.send_command(CommandEvent::WaitEnded),
        CommandAction::Reply("PING".to_string())
    );
    assert_eq!(engine.command_phase(), CommandPhase::Idle);
    assert!(!engine.reply_ready());
}

#[test]
fn echo_during_settling_is_part_of_the_reply() {
    let mut engine = CoolboxAutofan::dummy();
    assert_eq!(engine.send_command(CommandEvent::Submit), CommandAction::Write);
    assert_eq!(engine.send_command(CommandEvent::Written), CommandAction::Settle(200));
    feed(&mut engine, b"PI");
    assert_eq!(engine.send_command(CommandEvent::Settled), CommandAction::Await(1000));
    feed(&mut engine, b"NG");
    engine.listening_step(ReadEvent::TimedOut);
    assert_eq!(
        engine.send_command(CommandEvent::WaitEnded),
        CommandAction::Reply("PING".to_string())
    );
}

#[test]
fn end_of_data_completes_a_fully_sent_command() {
    let mut engine = CoolboxAutofan::dummy();
    start_waiting(&mut engine);
    feed(&mut engine, b"OK");
    assert_eq!(engine.listening_step(ReadEvent::EndOfData), ListenerAction::Read);
    assert_eq!(
        engine.send_command(CommandEvent::WaitEnded),
        CommandAction::Reply("OK".to_string())
    );
}

#[test]
fn silence_while_waiting_gives_an_empty_reply() {
    let mut engine = CoolboxAutofan::dummy();
    start_waiting(&mut engine);
    engine.listening_step(ReadEvent::TimedOut);
    assert_eq!(
        engine.send_command(CommandEvent::WaitEnded),
        CommandAction::Reply(String::new())
    );
}

#[test]
fn malformed_bytes_are_replaced_in_the_reply() {
    let mut engine = CoolboxAutofan::dummy();
    start_waiting(&mut engine);
    feed(&mut engine, &[0x4f, 0xff, 0x4b]);
    engine.listening_step(ReadEvent::TimedOut);
    assert_eq!(
        engine.send_command(CommandEvent::WaitEnded),
        CommandAction::Reply("O\u{fffd}K".to_string())
    );
}

#[test]
fn multibyte_text_is_decoded_in_the_reply() {
    let mut engine = CoolboxAutofan::dummy();
    start_waiting(&mut engine);
    feed(&mut engine, "t=21\u{b0}C".as_bytes());
    engine.listening_step(ReadEvent::TimedOut);
    assert_eq!(
        engine.send_command(CommandEvent::WaitEnded),
        CommandAction::Reply("t=21\u{b0}C".to_string())
    );
}

#[test]
fn unsolicited_bytes_reach_a_subscriber_as_one_chunk() {
    let mut engine = CoolboxAutofan::dummy();
    let id = engine.subscribe().unwrap();
    feed(&mut engine, b"T=42\n");
    assert_eq!(engine.pending(id), 0);
    assert_eq!(engine.listening_step(ReadEvent::TimedOut), ListenerAction::Read);
    assert_eq!(engine.pending(id), 1);
    assert_eq!(engine.poll(id), Received::Chunk(b"T=42\n".to_vec()));
    assert_eq!(engine.poll(id), Received::Empty);
    assert!(!engine.reply_ready());
    assert!(!engine.command_in_progress());
}

#[test]
fn silence_without_bytes_broadcasts_nothing() {
    let mut engine = CoolboxAutofan::dummy();
    let id = engine.subscribe().unwrap();
    engine.listening_step(ReadEvent::TimedOut);
    engine.listening_step(ReadEvent::EndOfData);
    assert_eq!(engine.pending(id), 0);
    assert_eq!(engine.poll(id), Received::Empty);
}

#[test]
fn end_of_data_flushes_the_broadcast_buffer() {
    let mut engine = CoolboxAutofan::dummy();
    let id = engine.subscribe().unwrap();
    feed(&mut engine, b"abc");
    engine.listening_step(ReadEvent::EndOfData);
    assert_eq!(engine.poll(id), Received::Chunk(b"abc".to_vec()));
    assert_eq!(engine.poll(id), Received::Empty);
}

#[test]
fn a_stalled_message_is_split_into_two_chunks() {
    let mut engine = CoolboxAutofan::dummy();
    let id = engine.subscribe().unwrap();
    feed(&mut engine, b"T=");
    engine.listening_step(ReadEvent::TimedOut);
    feed(&mut engine, b"42\n");
    engine.listening_step(ReadEvent::TimedOut);
    assert_eq!(engine.poll(id), Received::Chunk(b"T=".to_vec()));
    assert_eq!(engine.poll(id), Received::Chunk(b"42\n".to_vec()));
    assert_eq!(engine.poll(id), Received::Empty);
}

#[test]
fn command_replies_are_broadcast_too() {
    let mut engine = CoolboxAutofan::dummy();
    let id = engine.subscribe().unwrap();
    start_waiting(&mut engine);
    feed(&mut engine, b"OK");
    engine.listening_step(ReadEvent::TimedOut);
    assert_eq!(engine.poll(id), Received::Chunk(b"OK".to_vec()));
    assert_eq!(
        engine.send_command(CommandEvent::WaitEnded),
        CommandAction::Reply("OK".to_string())
    );
}

#[test]
fn no_reply_fails_after_the_reply_wait_bound() {
    let mut engine = CoolboxAutofan::dummy();
    assert_eq!(engine.send_command(CommandEvent::Submit), CommandAction::Write);
    assert_eq!(
        engine.send_command(CommandEvent::Written),
        CommandAction::Settle(POST_WRITE_SETTLE_MS)
    );
    assert_eq!(engine.send_command(CommandEvent::Settled), CommandAction::Await(REPLY_WAIT_MS));
    assert!(!engine.reply_ready());
    assert_eq!(
        engine.send_command(CommandEvent::WaitEnded),
        CommandAction::Failed(EngineError::NoReply)
    );
    assert_eq!(engine.command_phase(), CommandPhase::Idle);
    assert!(engine.is_listener_alive());
    assert!(engine.command_in_progress());
    assert!(engine.command_fully_sent());
    assert_eq!(engine.send_command(CommandEvent::Submit), CommandAction::Write);
}

#[test]
fn a_line_that_never_falls_silent_gives_no_reply() {
    let mut engine = CoolboxAutofan::dummy();
    start_waiting(&mut engine);
    feed(&mut engine, b"streaming without a pause");
    assert_eq!(
        engine.send_command(CommandEvent::WaitEnded),
        CommandAction::Failed(EngineError::NoReply)
    );
}

#[test]
fn dead_listener_fails_commands_instead_of_hanging() {
    let mut engine = CoolboxAutofan::dummy();
    assert!(engine.is_listener_alive());
    assert_eq!(engine.listening_step(ReadEvent::Failed), ListenerAction::Stop);
    assert!(!engine.is_listener_alive());
    assert!(!engine.should_listen());
    assert_eq!(engine.listening_step(ReadEvent::Byte(b'x')), ListenerAction::Stop);
    assert_eq!(engine.send_command(CommandEvent::Submit), CommandAction::Write);
    assert_eq!(engine.send_command(CommandEvent::Written), CommandAction::Settle(200));
    assert_eq!(engine.listening_step(ReadEvent::Byte(b'y')), ListenerAction::Stop);
    assert_eq!(engine.send_command(CommandEvent::Settled), CommandAction::Await(1000));
    assert_eq!(engine.listening_step(ReadEvent::TimedOut), ListenerAction::Stop);
    assert!(!engine.reply_ready());
    assert_eq!(
        engine.send_command(CommandEvent::WaitEnded),
        CommandAction::Failed(EngineError::NoReply)
    );
    assert!(!engine.is_listener_alive());
}

#[test]
fn a_late_reply_is_not_seen_by_the_next_command() {
    let mut engine = CoolboxAutofan::dummy();
    start_waiting(&mut engine);
    feed(&mut engine, b"OLD");
    assert_eq!(
        engine.send_command(CommandEvent::WaitEnded),
        CommandAction::Failed(EngineError::NoReply)
    );
    assert_eq!(engine.listening_step(ReadEvent::TimedOut), ListenerAction::Read);
    assert!(!engine.reply_ready());
    assert!(!engine.command_in_progress());
    assert!(!engine.command_fully_sent());
    start_waiting(&mut engine);
    assert!(!engine.reply_ready());
    feed(&mut engine, b"NEW");
    engine.listening_step(ReadEvent::TimedOut);
    assert_eq!(
        engine.send_command(CommandEvent::WaitEnded),
        CommandAction::Reply("NEW".to_string())
    );
}

#[test]
fn sequential_commands_each_get_their_own_reply() {
    let mut engine = CoolboxAutofan::dummy();
    for text in ["one", "two", "three"] {
        assert!(!engine.reply_ready());
        start_waiting(&mut engine);
        feed(&mut engine, text.as_bytes());
        engine.listening_step(ReadEvent::TimedOut);
        assert!(engine.reply_ready());
        engine.listening_step(ReadEvent::TimedOut);
        assert_eq!(
            engine.send_command(CommandEvent::WaitEnded),
            CommandAction::Reply(text.to_string())
        );
        assert!(!engine.reply_ready());
    }
}

#[test]
fn bytes_read_without_a_command_never_reach_the_reply() {
    let mut engine = CoolboxAutofan::dummy();
    feed(&mut engine, b"noise");
    engine.listening_step(ReadEvent::TimedOut);
    feed(&mut engine, b"more");
    assert!(!engine.reply_ready());
    start_waiting(&mut engine);
    feed(&mut engine, b"R");
    engine.listening_step(ReadEvent::TimedOut);
    assert_eq!(
        engine.send_command(CommandEvent::WaitEnded),
        CommandAction::Reply("R".to_string())
    );
}

#[test]
fn bytes_before_fully_sent_are_kept_across_a_timeout() {
    let mut engine = CoolboxAutofan::dummy();
    assert_eq!(engine.send_command(CommandEvent::Submit), CommandAction::Write);
    feed(&mut engine, b"A");
    engine.listening_step(ReadEvent::TimedOut);
    assert!(!engine.reply_ready());
    assert!(engine.command_in_progress());
    assert_eq!(engine.send_command(CommandEvent::Written), CommandAction::Settle(200));
    engine.listening_step(ReadEvent::EndOfData);
    feed(&mut engine, b"B");
    engine.listening_step(ReadEvent::TimedOut);
    assert!(!engine.reply_ready());
    assert_eq!(engine.send_command(CommandEvent::Settled), CommandAction::Await(1000));
    engine.listening_step(ReadEvent::TimedOut);
    assert_eq!(
        engine.send_command(CommandEvent::WaitEnded),
        CommandAction::Reply("AB".to_string())
    );
}

#[test]
fn a_failed_write_is_reported_and_leaves_the_engine_usable() {
    let mut engine = CoolboxAutofan::dummy();
    assert_eq!(engine.send_command(CommandEvent::Submit), CommandAction::Write);
    assert_eq!(
        engine.send_command(CommandEvent::WriteFailed),
        CommandAction::Failed(EngineError::WriteFailed)
    );
    assert_eq!(engine.command_phase(), CommandPhase::Idle);
    assert!(engine.command_in_progress());
    assert!(!engine.command_fully_sent());
    assert!(engine.is_listener_alive());
    engine.listening_step(ReadEvent::TimedOut);
    assert!(engine.command_in_progress());
    start_waiting(&mut engine);
    feed(&mut engine, b"ok");
    engine.listening_step(ReadEvent::TimedOut);
    assert_eq!(
        engine.send_command(CommandEvent::WaitEnded),
        CommandAction::Reply("ok".to_string())
    );
}

#[test]
fn only_one_command_is_in_flight() {
    let mut engine = CoolboxAutofan::dummy();
    assert_eq!(engine.send_command(CommandEvent::Submit), CommandAction::Write);
    assert_eq!(engine.send_command(CommandEvent::Submit), CommandAction::Busy);
    assert_eq!(engine.command_phase(), CommandPhase::Writing);
    assert_eq!(engine.send_command(CommandEvent::Written), CommandAction::Settle(200));
    assert_eq!(engine.send_command(CommandEvent::Submit), CommandAction::Busy);
    assert_eq!(engine.command_phase(), CommandPhase::Settling);
    assert_eq!(engine.send_command(CommandEvent::Settled), CommandAction::Await(1000));
    assert_eq!(engine.send_command(CommandEvent::Submit), CommandAction::Busy);
    assert_eq!(engine.command_phase(), CommandPhase::Awaiting);
}

#[test]
fn reports_out_of_turn_change_nothing() {
    let mut engine = CoolboxAutofan::dummy();
    assert_eq!(engine.send_command(CommandEvent::Written), CommandAction::Busy);
    assert_eq!(engine.send_command(CommandEvent::WriteFailed), CommandAction::Busy);
    assert_eq!(engine.send_command(CommandEvent::Settled), CommandAction::Busy);
    assert_eq!(engine.send_command(CommandEvent::WaitEnded), CommandAction::Busy);
    assert_eq!(engine.command_phase(), CommandPhase::Idle);
    assert!(!engine.command_in_progress());
    assert!(!engine.command_fully_sent());
    assert_eq!(engine.send_command(CommandEvent::Submit), CommandAction::Write);
    assert_eq!(engine.send_command(CommandEvent::Settled), CommandAction::Busy);
    assert_eq!(engine.send_command(CommandEvent::WaitEnded), CommandAction::Busy);
    assert_eq!(engine.command_phase(), CommandPhase::Writing);
}

#[test]
fn complete_reply_reaches_only_a_waiting_caller() {
    let mut engine = CoolboxAutofan::dummy();
    engine.complete_reply("early".to_string());
    assert!(!engine.reply_ready());
    start_waiting(&mut engine);
    engine.complete_reply("first".to_string());
    assert!(engine.reply_ready());
    assert!(!engine.command_in_progress());
    assert!(!engine.command_fully_sent());
    engine.complete_reply("second".to_string());
    assert_eq!(
        engine.send_command(CommandEvent::WaitEnded),
        CommandAction::Reply("first".to_string())
    );
}

#[test]
fn shutdown_stops_the_reader_at_its_next_look() {
    let mut engine = CoolboxAutofan::dummy();
    assert!(engine.should_listen());
    assert_eq!(engine.join(), None);
    assert!(engine.is_listener_alive());
    assert!(!engine.should_listen());
    assert!(!engine.is_listener_alive());
    assert_eq!(engine.join(), Some(Ok(())));
}

#[test]
fn shutdown_reports_a_reader_that_failed() {
    let mut engine = CoolboxAutofan::dummy();
    assert_eq!(engine.listening_step(ReadEvent::Failed), ListenerAction::Stop);
    assert_eq!(engine.join(), Some(Err(EngineError::ListenerFailed)));
    assert!(!engine.should_listen());
    assert_eq!(engine.join(), Some(Err(EngineError::ListenerFailed)));
}

#[test]
fn failure_words() {
    assert_eq!(EngineError::NoReply.describe(), "Unable to receive command's response from the listener");
    assert_eq!(EngineError::WriteFailed.describe(), "Unable to write the command to the device");
    assert_eq!(EngineError::ListenerFailed.describe(), "Unable to read from the device");
}
