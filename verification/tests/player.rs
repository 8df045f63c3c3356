use miogenes::player::{
    first_cover_art, id_query_url, now_playing_line, player_source, PlayerQueue, QueueAction, QueueMsg,
};

fn queue_of(ids: &[u128], pos: usize) -> PlayerQueue {
    PlayerQueue { queue: ids.to_vec(), position: pos }
}

#[test]
fn push_appends_without_playing() {
    let mut q = PlayerQueue::new();
    assert_eq!(q.handle(QueueMsg::Push(1)), QueueAction::Keep);
    assert_eq!(q.handle(QueueMsg::Push(2)), QueueAction::Keep);
    assert_eq!(q.queue, vec![1, 2]);
    assert_eq!(q.position, 0);
}

#[test]
fn force_play_plays_the_track() {
    let mut q = queue_of(&[1, 2], 0);
    assert_eq!(q.handle(QueueMsg::ForcePlay(9)), QueueAction::SetPlayer(Some(9)));
    assert_eq!(q.queue, vec![1, 2, 9]);
    assert_eq!(q.position, 2);
}

#[test]
fn skip_and_skip_back() {
    let mut q = queue_of(&[1, 2, 3], 0);
    assert_eq!(q.handle(QueueMsg::Skip), QueueAction::SetPlayer(Some(2)));
    assert_eq!(q.handle(QueueMsg::Ended), QueueAction::SetPlayer(Some(3)));
    assert_eq!(q.handle(QueueMsg::Skip), QueueAction::SetPlayer(None));
    assert_eq!(q.position, 3);
    assert_eq!(q.handle(QueueMsg::SkipBack), QueueAction::SetPlayer(Some(3)));
    let mut q = queue_of(&[1, 2], 0);
    assert_eq!(q.handle(QueueMsg::SkipBack), QueueAction::SetPlayer(Some(1)));
    assert_eq!(q.position, 0);
}

#[test]
fn remove_later_track_moves_back() {
    let mut q = queue_of(&[1, 2, 3, 2], 1);
    assert_eq!(q.handle(QueueMsg::Rem(Some(3))), QueueAction::SetPlayer(Some(1)));
    assert_eq!(q.queue, vec![1, 2, 2]);
    assert_eq!(q.position, 0);
}

#[test]
fn remove_current_track_plays_next() {
    let mut q = queue_of(&[1, 2, 3, 2], 1);
    assert_eq!(q.handle(QueueMsg::Rem(Some(2))), QueueAction::SetPlayer(Some(3)));
    assert_eq!(q.queue, vec![1, 3]);
    assert_eq!(q.position, 1);
}

#[test]
fn remove_earlier_or_missing_track() {
    let mut q = queue_of(&[1, 2, 3], 2);
    assert_eq!(q.handle(QueueMsg::Rem(Some(1))), QueueAction::Keep);
    assert_eq!(q.queue, vec![2, 3]);
    assert_eq!(q.position, 2);
    assert_eq!(q.handle(QueueMsg::Rem(Some(7))), QueueAction::Keep);
    assert_eq!(q.queue, vec![2, 3]);
}

#[test]
fn remove_front() {
    let mut q = queue_of(&[1, 2], 1);
    assert_eq!(q.handle(QueueMsg::Rem(None)), QueueAction::SetPlayer(None));
    assert_eq!(q.queue, vec![2]);
    let mut q = queue_of(&[1, 2], 0);
    assert_eq!(q.handle(QueueMsg::Rem(None)), QueueAction::Keep);
    assert_eq!(q.queue, vec![2]);
}

#[test]
fn query_addresses() {
    let id = 0x67e55044_10b1_426f_9247_bb680e5fe0c8u128;
    assert_eq!(
        id_query_url("http://h:8080", "/api/query/ca", id),
        "http://h:8080/api/query/ca?id=67e55044-10b1-426f-9247-bb680e5fe0c8"
    );
    assert_eq!(
        player_source("http://h", Some(1)),
        "http://h/api/track/stream?id=00000000-0000-0000-0000-000000000001"
    );
    assert_eq!(player_source("http://h", None), "");
}

#[test]
fn album_cover_and_now_playing() {
    assert_eq!(first_cover_art(&vec![None, Some(3), Some(4)]), Some(3));
    assert_eq!(first_cover_art(&vec![None, None]), None);
    assert_eq!(first_cover_art(&vec![]), None);
    assert_eq!(now_playing_line("Song", &Some("Band".to_string())), "Song - Band");
    assert_eq!(now_playing_line("Song", &None), "Song - ?");
}
