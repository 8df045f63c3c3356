use miogenes::control::{CleanupStep, DecoderControl, DecoderEffect, DecoderMsg, Polled, Tick};
use miogenes::queue::{AudioQueue, DecoderQueue, QueueError};

#[test]
fn enqueue_goes_to_front() {
    let mut d = DecoderControl::new();
    assert_eq!(d.handle(DecoderMsg::Enqueue(1)), DecoderEffect::Nothing);
    assert_eq!(d.handle(DecoderMsg::Enqueue(2)), DecoderEffect::Nothing);
    assert_eq!(d.order, vec![2, 1]);
}

#[test]
fn play_pause_stop() {
    let mut d = DecoderControl { order: vec![5], pos: 0, age: 0, active: false, loaded: vec![5] };
    d.handle(DecoderMsg::Play);
    assert!(d.active);
    assert_eq!(d.handle(DecoderMsg::SeekAbs(1_000)), DecoderEffect::Seek(5, 1_000));
    assert_eq!(d.handle(DecoderMsg::Stop), DecoderEffect::ResetTrack(5));
    assert!(!d.active);
    d.handle(DecoderMsg::Play);
    d.handle(DecoderMsg::Pause);
    assert!(!d.active);
}

#[test]
fn next_and_previous_need_a_current_track() {
    let mut d = DecoderControl { order: vec![5, 6], pos: 0, age: 0, active: true, loaded: vec![5, 6] };
    assert_eq!(d.get_curr(), Some(5));
    assert_eq!(d.handle(DecoderMsg::Next), DecoderEffect::ResetTrack(5));
    assert_eq!(d.get_curr(), Some(6));
    assert_eq!(d.handle(DecoderMsg::Previous), DecoderEffect::ResetTrack(6));
    assert_eq!(d.pos, 0);
    let mut d = DecoderControl { order: vec![5], pos: 0, age: 0, active: true, loaded: vec![] };
    assert_eq!(d.handle(DecoderMsg::Next), DecoderEffect::Nothing);
    assert_eq!(d.pos, 0);
    assert_eq!(d.handle(DecoderMsg::SeekAbs(3)), DecoderEffect::Nothing);
}

#[test]
fn reset_forgets_everything() {
    let mut d = DecoderControl { order: vec![5, 6], pos: 1, age: 3, active: true, loaded: vec![5] };
    d.note_dead_current();
    assert_eq!(d.age, 4);
    d.handle(DecoderMsg::Reset);
    assert!(d.order.is_empty() && d.loaded.is_empty());
    assert_eq!((d.pos, d.age, d.active), (0, 0, false));
    assert_eq!(d.get_curr(), None);
}

#[test]
fn decoder_queue() {
    let mut q = DecoderQueue::new();
    q.queue(1);
    q.queue(2);
    q.queue(1);
    q.queue(3);
    assert_eq!(q.copy_queue(), vec![1, 2, 1, 3]);
    q.dequeue(1);
    assert_eq!(q.copy_queue(), vec![2, 3]);
    assert_eq!(q.forward(), Some(2));
    assert_eq!(q.next_after_end(), Some(3));
    assert!(!q.pause);
    assert_eq!(q.next_after_end(), None);
    assert!(q.pause);
    q.queue(4);
    q.clear_self();
    assert!(q.copy_queue().is_empty());
}

#[test]
fn audio_queue_makes_room() {
    let mut a = AudioQueue::new(2);
    assert_eq!(a.make_room(), Err(QueueError::NoSpaceLeftInQueue));
    assert_eq!(QueueError::NoSpaceLeftInQueue.message(), "queue is full");
    let mut a = AudioQueue { order: vec![1, 2], now_playing: 1, limit: 2 };
    assert_eq!(a.make_room(), Ok(Some(1)));
    assert_eq!(a.order, vec![2]);
    assert_eq!(a.now_playing, 0);
    let mut a = AudioQueue { order: vec![1, 2, 3], now_playing: 1, limit: 2 };
    assert_eq!(a.make_room(), Ok(None));
    a.reset();
    assert!(a.order.is_empty());
    assert_eq!(a.now_playing, 0);
}

#[test]
fn decoder_queue_play_pause_toggle() {
    let mut q = DecoderQueue::new();
    q.queue(7);
    q.queue(8);
    q.pause();
    assert!(q.pause);
    q.toggle();
    assert!(!q.pause);
    q.toggle();
    assert!(q.pause);
    q.play(None);
    assert!(!q.pause);
    assert_eq!(q.copy_queue(), vec![7, 8]);
    q.pause();
    q.play(Some(9));
    assert!(!q.pause);
    assert!(q.copy_queue().is_empty());
}

#[test]
fn samples_come_from_the_current_track() {
    let mut d = DecoderControl::new();
    assert_eq!(d.sample_source(), None);
    assert_eq!(d.output_format(Some((2, 44100))), (1, 96000));
    d.handle(DecoderMsg::Enqueue(5));
    d.loaded.push(5);
    assert_eq!(d.sample_source(), None);
    d.handle(DecoderMsg::Play);
    assert_eq!(d.sample_source(), Some(5));
    assert_eq!(d.output_format(Some((2, 44100))), (2, 44100));
    assert_eq!(d.output_format(None), (1, 96000));
    assert!(!d.after_receive(true, true));
    assert!(!d.after_receive(false, false));
    assert_eq!(d.pos, 0);
    assert!(d.after_receive(false, true));
    assert_eq!(d.pos, 1);
    assert_eq!(d.sample_source(), None);
}

#[test]
fn queue_then_dequeue_restores() {
    let mut q = DecoderQueue::new();
    q.queue(1);
    q.queue(2);
    q.queue(3);
    q.dequeue(3);
    assert_eq!(q.copy_queue(), vec![1, 2]);
}

#[test]
fn poll_ends_on_hang_up() {
    let mut d = DecoderControl::new();
    assert_eq!(d.poll(Polled::Disconnected), None);
    assert_eq!(d.poll(Polled::Nothing), Some(DecoderEffect::Nothing));
    assert_eq!(d.poll(Polled::Message(DecoderMsg::Enqueue(4))), Some(DecoderEffect::Nothing));
    assert_eq!(d.order, vec![4]);
}

#[test]
fn status_report_lists_the_order() {
    let mut d = DecoderControl::new();
    let empty = d.status_report(Some((5, 1)));
    assert_eq!((empty.curr, empty.len, empty.at, empty.tracks.len()), (0, 0, 0, 0));
    d.handle(DecoderMsg::Enqueue(2));
    d.handle(DecoderMsg::Enqueue(1));
    d.loaded.push(1);
    let r = d.status_report(Some((9_000, 500)));
    assert_eq!((r.curr, r.len, r.at), (1, 9_000, 500));
    assert_eq!(r.tracks.iter().map(|t| t.id).collect::<Vec<_>>(), vec![1, 2]);
    let none = d.status_report(None);
    assert_eq!((none.curr, none.tracks.len()), (0, 0));
}

#[test]
fn cleanup_drops_old_dead_fronts() {
    let mut d = DecoderControl::new();
    assert_eq!(d.cleanup_step(100, 0, true), CleanupStep::Done);
    d.handle(DecoderMsg::Enqueue(3));
    d.handle(DecoderMsg::Enqueue(2));
    d.handle(DecoderMsg::Enqueue(1));
    d.loaded = vec![1, 2, 3];
    d.pos = 1;
    assert_eq!(d.cleanup_step(30, 10, true), CleanupStep::Done);
    assert_eq!(d.cleanup_step(40, 10, false), CleanupStep::Stuck);
    assert_eq!(d.cleanup_step(40, 10, true), CleanupStep::Dropped(1));
    assert_eq!(d.order, vec![2, 3]);
    assert_eq!(d.loaded, vec![2, 3]);
}

#[test]
fn ticks_combine_poll_and_source() {
    let mut d = DecoderControl::new();
    assert_eq!(d.tick(Polled::Nothing), Tick::Silence(DecoderEffect::Nothing));
    assert_eq!(d.tick(Polled::Message(DecoderMsg::Enqueue(7))), Tick::Silence(DecoderEffect::Nothing));
    d.loaded.push(7);
    assert_eq!(d.tick(Polled::Message(DecoderMsg::Play)), Tick::Receive(DecoderEffect::Nothing, 7));
    assert_eq!(d.tick(Polled::Message(DecoderMsg::SeekAbs(5))), Tick::Receive(DecoderEffect::Seek(7, 5), 7));
    assert_eq!(d.tick(Polled::Message(DecoderMsg::Stop)), Tick::Silence(DecoderEffect::ResetTrack(7)));
    assert_eq!(d.tick(Polled::Disconnected), Tick::End);
}
