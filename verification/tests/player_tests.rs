use fluyer::metadata::MusicMetadata;
use fluyer::player::{
    track_end_applies, MusicPlayer, NextAction, PlayAction, RemoveOutcome, RepeatMode,
};

fn track(id: i16, path: &str) -> MusicMetadata {
    let mut m = MusicMetadata::default();
    m.id = id;
    m.path = path.to_string();
    m
}

fn ids(p: &MusicPlayer) -> Vec<i16> {
    (0..p.queue_count())
        .map(|i| p.queue_get_by_index(i).unwrap().id)
        .collect()
}

fn player_with(n: i16) -> MusicPlayer {
    let mut p = MusicPlayer::spawn();
    p.add_track((1..=n).map(|i| track(i, &format!("/m/{}.mp3", i))).collect());
    p
}

#[test]
fn empty_player_has_no_tracks() {
    let p = MusicPlayer::spawn();
    assert_eq!(p.queue_count(), 0);
    assert!(p.queue_get_by_index(0).is_none());
    assert_eq!(p.current_index(), None);
}

#[test]
fn next_wraps_with_repeat_all() {
    let mut p = MusicPlayer::spawn();
    assert!(p.add_track(vec![track(1, "a"), track(2, "b")]));
    p.track_loaded(1);
    p.set_repeat_mode(RepeatMode::All);
    assert_eq!(p.play_next(true), NextAction::Play(0));
    p.set_repeat_mode(RepeatMode::Off);
    assert_eq!(p.play_next(false), NextAction::RewindPaused);
    assert_eq!(p.play_next(true), NextAction::StopAtEnd);
    assert_eq!(p.current_index(), Some(0));
    assert_eq!(p.play(false), PlayAction::GotoTrack(0));
    assert_eq!(p.remove_track(0), RemoveOutcome::RemovedCurrent);
}

#[test]
fn add_track_reports_an_empty_queue() {
    let mut p = MusicPlayer::spawn();
    assert!(p.add_track(vec![track(1, "a")]));
    assert!(!p.add_track(vec![track(2, "b"), track(3, "c")]));
    assert_eq!(ids(&p), vec![1, 2, 3]);
}

#[test]
fn play_resumes_unless_playback_ended() {
    let mut p = player_with(3);
    assert_eq!(p.play(false), PlayAction::Resume);
    p.track_loaded(0);
    assert_eq!(p.play(true), PlayAction::Resume);
    assert_eq!(p.play(false), PlayAction::GotoTrack(0));
    p.track_loaded(1);
    assert_eq!(p.play(false), PlayAction::Resume);
    assert_eq!(p.pause(), PlayAction::Pause);
}

#[test]
fn get_next_index_follows_repeat_mode() {
    let mut p = player_with(3);
    assert_eq!(p.get_next_index(true), None);
    p.track_loaded(1);
    assert_eq!(p.get_next_index(false), Some(2));
    p.set_repeat_mode(RepeatMode::One);
    assert_eq!(p.get_next_index(false), Some(1));
    assert_eq!(p.get_next_index(true), Some(2));
    p.track_loaded(2);
    p.set_repeat_mode(RepeatMode::Off);
    assert_eq!(p.get_next_index(true), None);
    p.set_repeat_mode(RepeatMode::All);
    assert_eq!(p.get_next_index(true), Some(0));
}

#[test]
fn repeat_one_repeats_a_track_that_ended() {
    let mut p = player_with(2);
    p.track_loaded(0);
    p.set_repeat_mode(RepeatMode::One);
    assert_eq!(p.play_next(false), NextAction::Play(0));
    assert_eq!(p.next(), NextAction::Play(1));
}

#[test]
fn repeat_all_never_runs_out() {
    let mut p = player_with(4);
    p.set_repeat_mode(RepeatMode::All);
    for i in 0..4 {
        p.track_loaded(i);
        match p.play_next(false) {
            NextAction::Play(n) => assert!(n < 4),
            other => panic!("unexpected {:?}", other),
        }
    }
}

#[test]
fn play_next_on_an_empty_queue_stops() {
    let mut p = MusicPlayer::spawn();
    assert_eq!(p.play_next(false), NextAction::Stop);
    assert_eq!(p.current_index(), None);
}

#[test]
fn previous_goes_back_or_wraps() {
    let mut p = player_with(3);
    assert_eq!(p.previous(), None);
    p.track_loaded(0);
    assert_eq!(p.previous(), Some(0));
    p.set_repeat_mode(RepeatMode::All);
    assert_eq!(p.previous(), Some(2));
    p.track_loaded(2);
    assert_eq!(p.previous(), Some(1));
}

#[test]
fn goto_track_checks_the_index() {
    let p = player_with(2);
    assert!(p.goto_track(1));
    assert!(!p.goto_track(2));
}

#[test]
fn track_loaded_ignores_a_stale_index() {
    let mut p = player_with(2);
    p.track_loaded(1);
    p.track_loaded(5);
    assert_eq!(p.current_index(), Some(1));
}

#[test]
fn clear_empties_the_queue_and_keeps_repeat() {
    let mut p = player_with(3);
    p.track_loaded(1);
    p.set_repeat_mode(RepeatMode::One);
    p.clear();
    assert_eq!(p.queue_count(), 0);
    assert_eq!(p.current_index(), None);
    assert_eq!(p.request_sync(false).repeat_mode, RepeatMode::One);
}

#[test]
fn remove_track_keeps_the_current_track() {
    let mut p = player_with(4);
    p.track_loaded(2);
    assert_eq!(p.remove_track(0), RemoveOutcome::Removed);
    assert_eq!(p.current_index(), Some(1));
    assert_eq!(p.queue_get_by_index(1).unwrap().id, 3);
    assert_eq!(p.remove_track(2), RemoveOutcome::Removed);
    assert_eq!(p.current_index(), Some(1));
    assert_eq!(p.remove_track(9), RemoveOutcome::OutOfRange);
    assert_eq!(ids(&p), vec![2, 3]);
    assert_eq!(p.remove_track(1), RemoveOutcome::RemovedCurrent);
    assert_eq!(ids(&p), vec![2]);
}

#[test]
fn moveto_track_moves_and_follows_the_current_track() {
    let mut p = player_with(5);
    p.track_loaded(1);
    assert!(p.moveto_track(0, 3));
    assert_eq!(ids(&p), vec![2, 3, 4, 1, 5]);
    assert_eq!(p.current_index(), Some(0));
    assert!(p.moveto_track(4, 0));
    assert_eq!(ids(&p), vec![5, 2, 3, 4, 1]);
    assert_eq!(p.current_index(), Some(1));
    assert!(!p.moveto_track(0, 5));
    assert_eq!(ids(&p), vec![5, 2, 3, 4, 1]);
}

#[test]
fn shuffle_keeps_the_tracks_and_puts_the_current_one_first() {
    let mut p = player_with(8);
    p.track_loaded(3);
    p.shuffle_track();
    assert!(p.request_sync(false).is_shuffled);
    assert_eq!(p.current_index(), Some(0));
    assert_eq!(p.queue_get_by_index(0).unwrap().id, 4);
    let mut got = ids(&p);
    got.sort();
    assert_eq!(got, (1..=8).collect::<Vec<i16>>());
}

#[test]
fn shuffle_round_trip_restores_the_order() {
    let mut p = player_with(6);
    p.track_loaded(2);
    p.shuffle_track();
    p.shuffle_track();
    assert!(!p.request_sync(false).is_shuffled);
    assert_eq!(ids(&p), vec![1, 2, 3, 4, 5, 6]);
    assert_eq!(p.current_index(), Some(2));
}

#[test]
fn shuffled_queue_takes_new_tracks_after_the_current_one() {
    let mut p = player_with(3);
    p.track_loaded(0);
    p.shuffle_track();
    let first = p.queue_get_by_index(0).unwrap().id;
    p.add_track(vec![track(10, "x"), track(11, "y")]);
    assert_eq!(p.queue_count(), 5);
    assert_eq!(p.queue_get_by_index(0).unwrap().id, first);
    p.shuffle_track();
    assert_eq!(ids(&p), vec![1, 2, 3, 10, 11]);
}

#[test]
fn moving_a_track_ends_shuffle() {
    let mut p = player_with(3);
    p.shuffle_track();
    assert!(p.moveto_track(0, 1));
    assert!(!p.request_sync(false).is_shuffled);
}

#[test]
fn removing_while_shuffled_also_drops_it_from_the_saved_order() {
    let mut p = player_with(4);
    p.track_loaded(0);
    p.shuffle_track();
    let gone = p.queue_get_by_index(2).unwrap().id;
    p.remove_track(2);
    p.shuffle_track();
    let expected: Vec<i16> = (1..=4).filter(|i| *i != gone).collect();
    assert_eq!(ids(&p), expected);
}

#[test]
fn sync_info_reports_the_queue() {
    let mut p = player_with(3);
    let s = p.emit_sync(false, false);
    assert_eq!(s.index, -1);
    assert!(!s.is_playing);
    p.track_loaded(2);
    p.set_repeat_mode(RepeatMode::All);
    let s = p.emit_sync(true, false);
    assert_eq!(s.index, 2);
    assert!(s.is_playing);
    assert!(s.position_reset);
    assert_eq!(s.repeat_mode, RepeatMode::All);
    let s = p.request_sync(true);
    assert!(s.is_playing);
    assert!(!s.position_reset);
    p.reset_equalizer();
    p.toggle_bit_perfect(true);
    assert_eq!(p.request_sync(true), s);
}

#[test]
fn media_boundaries_depend_on_repeat() {
    let mut p = player_with(3);
    assert_eq!(p.media_boundaries(0, 3), (true, false));
    assert_eq!(p.media_boundaries(2, 3), (false, true));
    assert_eq!(p.media_boundaries(0, 1), (true, true));
    p.set_repeat_mode(RepeatMode::One);
    assert_eq!(p.media_boundaries(0, 3), (false, false));
}

#[test]
fn a_stale_end_of_track_is_ignored() {
    assert!(track_end_applies(7, 7));
    assert!(!track_end_applies(7, 8));
    assert!(!track_end_applies(0, 0));
}

#[test]
fn queue_count_survives_shuffle_round_trip() {
    let mut p = player_with(6);
    p.track_loaded(2);
    p.shuffle_track();
    assert_eq!(p.queue_count(), 6);
    p.add_track(vec![track(7, "/m/7.mp3"), track(8, "/m/8.mp3")]);
    assert_eq!(p.queue_count(), 8);
    let expected = if p.current_index() == Some(5) {
        RemoveOutcome::RemovedCurrent
    } else {
        RemoveOutcome::Removed
    };
    assert_eq!(p.remove_track(5), expected);
    assert_eq!(p.queue_count(), 7);
    p.shuffle_track();
    assert_eq!(p.queue_count(), 7);
    let mut seen = ids(&p);
    seen.sort();
    assert_eq!(seen.len(), 7);
}
