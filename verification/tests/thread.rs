use miogenes::thread::{Command, DecoderThread, Sent, ThreadAction, ThreadStatus};

#[test]
fn fresh_thread_is_ready_at_the_start() {
    let t = DecoderThread::new();
    assert_eq!(t.status, ThreadStatus::Ready);
    assert_eq!(t.pos, 0);
    assert!(!t.pending);
}

#[test]
fn die_stops_the_thread() {
    let mut t = DecoderThread::new();
    assert_eq!(t.on_command(Command::Die), ThreadAction::Stop);
    assert_eq!(t.status, ThreadStatus::Ready);
    assert_eq!(t.debounce(7, Command::Die), ThreadAction::Stop);
}

#[test]
fn seeks_are_debounced_to_the_last_one() {
    let mut t = DecoderThread::new();
    assert_eq!(t.on_command(Command::Seek(1_000)), ThreadAction::Debounce(1_000));
    assert_eq!(t.status, ThreadStatus::Decoding);
    assert_eq!(t.debounce(1_000, Command::Seek(2_000)), ThreadAction::Debounce(2_000));
    assert_eq!(t.debounce(2_000, Command::Seek(3_000)), ThreadAction::Debounce(3_000));
    assert_eq!(t.debounce(3_000, Command::Nothing), ThreadAction::SeekTo(3_000));
    t.seeked(44_100);
    assert_eq!(t.pos, 44_100);
}

#[test]
fn samples_are_counted_when_taken() {
    let mut t = DecoderThread::new();
    assert_eq!(t.on_command(Command::Nothing), ThreadAction::Go);
    assert!(t.wants_sample());
    assert_eq!(t.status, ThreadStatus::Loading);
    t.decoded();
    assert!(t.pending);
    assert_eq!(t.after_send(Sent::TimedOut), ThreadAction::Go);
    assert_eq!(t.status, ThreadStatus::Ready);
    assert!(t.pending);
    assert_eq!(t.pos, 0);
    assert!(!t.wants_sample());
    assert_eq!(t.status, ThreadStatus::Ready);
    assert_eq!(t.after_send(Sent::Taken), ThreadAction::Go);
    assert!(!t.pending);
    assert_eq!(t.pos, 1);
    assert!(t.wants_sample());
}

#[test]
fn a_gone_decoder_stops_the_thread() {
    let mut t = DecoderThread::new();
    t.decoded();
    assert_eq!(t.after_send(Sent::Gone), ThreadAction::Stop);
    t.ended();
    assert_eq!(t.status, ThreadStatus::Dead);
}
