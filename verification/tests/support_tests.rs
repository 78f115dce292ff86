use fluyer::engine::{
    device_kind, load_start, load_step, plugin_files, DeviceKind, LoadAction, LoadEvent, LoadStage,
    Platform,
};
use fluyer::image_cache::{CacheStatus, ImageCache};
use fluyer::logger::{get_log_name, get_mpv_log_name, level_color, Level, Logger, MAX_LOGS};
use fluyer::lyric::{
    fetched_lyrics, has_synced_timestamps, local_lyrics_usable, lrc_path, lyric_query_check,
    lyric_step, queued_lyrics, waited_lyrics, LyricAction, LyricEvent, LyricRequestStatus,
    LyricStage,
};
use fluyer::media::{android_command, command_for, cover_url, media_duration, seek_step, MediaControlAction, MediaSession, PlaybackState, PlayerCommand};
use fluyer::metadata::MusicMetadata;
use fluyer::renderer::{init_global_renderer, restore_background, trigger_redraw, update_background};
use fluyer::text::decimal;
use fluyer::version::{is_newer_version, parse_version};

#[test]
fn versions_compare_part_by_part() {
    assert_eq!(parse_version("v1.2.3"), vec![1, 2, 3]);
    assert_eq!(parse_version("2.x.7"), vec![2, 0, 7]);
    assert!(is_newer_version("1.2.3", "v1.3.0"));
    assert!(is_newer_version("1.2", "1.2.1"));
    assert!(!is_newer_version("1.2.1", "1.2"));
    assert!(!is_newer_version("1.2.3", "1.2.3"));
    assert!(!is_newer_version("2.0.0", "1.9.9"));
    assert!(is_newer_version("1.9.9", "1.10.0"));
}

#[test]
fn decimal_text() {
    assert_eq!(decimal(0), "0");
    assert_eq!(decimal(7), "7");
    assert_eq!(decimal(1234567890), "1234567890");
    assert_eq!(decimal(u64::MAX), u64::MAX.to_string());
}

#[test]
fn logger_filters_by_level_and_formats() {
    let mut log = Logger::new();
    assert!(log.enabled(Level::Debug));
    assert!(!log.enabled(Level::Trace));
    assert!(log.log(Level::Trace, "fluyer", "hidden").is_none());
    let line = log.log(Level::Error, "fluyer", "boom").unwrap();
    assert_eq!(line.message, "fluyer - boom");
    assert_eq!(line.level, "ERROR");
    assert_eq!(line.console, "\x1b[31m[ERROR]\x1b[0m fluyer - boom");
    assert_eq!(log.get_buffered_logs(), vec![("ERROR".to_string(), "fluyer - boom".to_string())]);
    assert_eq!(level_color(Level::Info), "\x1b[32m");
    assert_eq!(Level::Warn.as_str(), "WARN");
    assert_eq!(get_log_name(), "fluyer.log");
    assert_eq!(get_mpv_log_name(), "fluyer-mpv.log");
}

#[test]
fn logger_keeps_the_latest_lines() {
    let mut log = Logger::new();
    for i in 0..(MAX_LOGS + 5) {
        log.log(Level::Info, "t", &i.to_string());
    }
    let lines = log.get_buffered_logs();
    assert_eq!(lines.len(), MAX_LOGS);
    assert_eq!(lines[0].1, "t - 5");
    assert_eq!(lines[MAX_LOGS - 1].1, format!("t - {}", MAX_LOGS + 4));
}

fn djb2_hex(path: &str) -> String {
    let mut h: u64 = 5381;
    for b in path.as_bytes() {
        h = h.wrapping_mul(33).wrapping_add(*b as u64);
    }
    format!("{:016x}", h)
}

#[test]
fn cache_keys() {
    assert_eq!(ImageCache::get_cache_key(Some("AC/DC"), Some("Back: In*Black?"), "/x"), "AC_DC Back_ In_Black_");
    let key = ImageCache::get_cache_key(None, Some("Album"), "/music/a.mp3");
    assert_eq!(key, djb2_hex("/music/a.mp3"));
    assert_eq!(key.len(), 16);
    assert_eq!(ImageCache::get_cache_key(None, None, ""), "0000000000001505");
}

#[test]
fn cache_status_queue_reads_back_writes() {
    let mut c = ImageCache::new();
    assert_eq!(c.queue_get("k"), None);
    assert!(!c.queue_set("k", CacheStatus::Pending));
    assert_eq!(c.queue_get("k"), Some(CacheStatus::Pending));
    assert!(c.queue_set("k", CacheStatus::Loaded));
    assert_eq!(c.queue_get("k"), Some(CacheStatus::Loaded));
    assert_eq!(c.queue_get("other"), None);
}

#[test]
fn cache_status_survives_writes_to_other_keys() {
    let mut c = ImageCache::new();
    assert_eq!(c.queue_get("a"), None);
    c.queue_set("a", CacheStatus::Failed);
    c.queue_set("b", CacheStatus::Pending);
    c.queue_set("c", CacheStatus::Loaded);
    c.queue_set("b", CacheStatus::Loaded);
    assert_eq!(c.queue_get("a"), Some(CacheStatus::Failed));
    assert_eq!(c.queue_get("b"), Some(CacheStatus::Loaded));
    assert_eq!(c.queue_get("c"), Some(CacheStatus::Loaded));
    assert!(!c.init_base_cover_size(300, None));
    assert_eq!(c.queue_get("a"), Some(CacheStatus::Failed));
}

#[test]
fn log_buffer_never_exceeds_its_bound() {
    let mut log = Logger::new();
    for i in 0..(2 * MAX_LOGS + 3) {
        log.log(Level::Warn, "t", &i.to_string());
        assert!(log.get_buffered_logs().len() <= MAX_LOGS);
    }
    assert_eq!(log.get_buffered_logs().len(), MAX_LOGS);
}

#[test]
fn cover_size() {
    let mut c = ImageCache::new();
    assert_eq!(c.base_cover_size(), 300);
    assert!(!c.init_base_cover_size(600, None));
    assert_eq!(c.base_cover_size(), 600);
    assert!(c.init_base_cover_size(900, Some(600)));
    assert_eq!(c.base_cover_size(), 600);
    assert_eq!(ImageCache::resize_permits(Some(8)), 6);
    assert_eq!(ImageCache::resize_permits(Some(2)), 1);
    assert_eq!(ImageCache::resize_permits(None), 2);
}

#[test]
fn synced_lyrics_are_recognised() {
    assert!(has_synced_timestamps("[ar:Someone]\n[00:12.34] line"));
    assert!(has_synced_timestamps("  [1:02] line"));
    assert!(!has_synced_timestamps("[ar:Someone]\nplain text"));
    assert!(!has_synced_timestamps(""));
    assert!(local_lyrics_usable(&Some("[00:01] a".to_string())));
    assert!(!local_lyrics_usable(&Some("a".to_string())));
    assert!(!local_lyrics_usable(&None));
}

#[test]
fn lyric_lookup_decisions() {
    assert_eq!(lrc_path("/music/song.flac"), "/music/song.lrc");
    assert_eq!(lrc_path("/music/song"), "/music/song.lrc");
    assert_eq!(lyric_query_check("").unwrap_err(), "No title provided for lyric search");
    assert!(lyric_query_check("t").is_ok());
    assert_eq!(
        queued_lyrics(LyricRequestStatus::Loaded, Some("x".to_string()), "k"),
        Some(Ok("x".to_string()))
    );
    assert_eq!(
        queued_lyrics(LyricRequestStatus::Loaded, None, "k"),
        Some(Err("Lyrics cache file not found: k".to_string()))
    );
    assert_eq!(
        queued_lyrics(LyricRequestStatus::Failed, None, "k"),
        Some(Err("Lyrics fetch previously failed: k".to_string()))
    );
    assert_eq!(queued_lyrics(LyricRequestStatus::Pending, None, "k"), None);
    assert_eq!(waited_lyrics(LyricRequestStatus::Failed, None, "k"), Err("Lyrics fetch failed: k".to_string()));
    assert_eq!(waited_lyrics(LyricRequestStatus::Loaded, Some("y".to_string()), "k"), Ok("y".to_string()));
    assert_eq!(fetched_lyrics(Some("z".to_string()), "k"), (LyricRequestStatus::Loaded, Ok("z".to_string())));
    assert_eq!(
        fetched_lyrics(None, "k"),
        (LyricRequestStatus::Failed, Err("Failed to get lyrics for: k".to_string()))
    );
}

#[test]
fn media_control_actions() {
    assert_eq!(command_for(MediaControlAction::Toggle, true, 0), PlayerCommand::Pause);
    assert_eq!(command_for(MediaControlAction::Toggle, false, 0), PlayerCommand::Play);
    assert_eq!(command_for(MediaControlAction::Stop, true, 0), PlayerCommand::Pause);
    assert_eq!(command_for(seek_step(true), true, 5_000), PlayerCommand::SeekTo(15_000));
    assert_eq!(command_for(seek_step(false), true, 5_000), PlayerCommand::SeekTo(0));
    assert_eq!(command_for(MediaControlAction::SeekForward(10), true, u64::MAX), PlayerCommand::SeekTo(u64::MAX));
    assert_eq!(android_command("seek:1500"), Some(PlayerCommand::SeekTo(1500)));
    assert_eq!(android_command("next"), Some(PlayerCommand::Next));
    assert_eq!(android_command("seek:x"), None);
    assert_eq!(android_command("dance"), None);
}

#[test]
fn media_session_state_and_track() {
    assert_eq!(MediaSession::set_state(true, 42), PlaybackState::Playing { position_ms: 42 });
    assert_eq!(MediaSession::set_state(false, 7), PlaybackState::Paused { position_ms: 7 });
    let mut m = MusicMetadata::default();
    m.duration = Some(180_000);
    m.title = Some("T".to_string());
    let shown = MediaSession::now_playing(&m);
    assert_eq!(shown.title, "T");
    assert_eq!(shown.artist, MusicMetadata::default_artist());
    assert_eq!(shown.album, "Unknown");
    assert_eq!(shown.duration_ms, 180_000);
    assert_eq!(cover_url("/a/b.jpg"), "file:///a/b.jpg");
    assert_eq!(cover_url("file:///a/b.jpg"), "file:///a/b.jpg");
    assert_eq!(media_duration(0), None);
    assert_eq!(media_duration(5), Some(5));
}

#[test]
fn background_state_changes() {
    let mut s = init_global_renderer();
    restore_background(&mut s);
    assert_eq!(s, init_global_renderer());
    update_background(&mut s, 3);
    assert_eq!(s.cached_image, Some(3));
    assert_eq!(s.pending_next, Some(3));
    assert!(s.needs_redraw);
    let up = s.take_pending();
    assert_eq!(up.next, Some(3));
    s.install_uploads(&up, Some(30), None);
    assert!(s.transitioning);
    let t = s.tick_transition(false);
    assert!(!t.completed);
    let t = s.tick_transition(true);
    assert!(t.completed);
    assert_eq!(s.current_image_id, Some(30));
    restore_background(&mut s);
    assert_eq!(s.pending_current, Some(3));
    s.needs_redraw = false;
    trigger_redraw(&mut s);
    assert!(s.needs_redraw);
}

#[test]
fn plugin_libraries_per_platform() {
    assert_eq!(plugin_files(Platform::Windows)[0], "bassflac.dll");
    assert_eq!(plugin_files(Platform::Linux)[5], "libbass_aac.so");
    assert_eq!(plugin_files(Platform::Android).len(), 6);
    assert_eq!(
        plugin_files(Platform::MacOs),
        vec!["bassflac.dylib", "bassopus.dylib", "bassape.dylib", "basswv.dylib"]
    );
    assert_eq!(device_kind(3), DeviceKind::Default);
    assert_eq!(device_kind(1), DeviceKind::Enabled);
    assert_eq!(device_kind(0), DeviceKind::Disabled);
}

#[test]
fn loading_directly() {
    let s = load_start();
    let (s, a) = load_step(s, LoadEvent::Opened(5)).unwrap();
    assert_eq!(a, LoadAction::AddToMixer(5));
    let (s, a) = load_step(s, LoadEvent::Added(true)).unwrap();
    assert_eq!(s, LoadStage::Loaded { stream: 5, converted: false });
    assert_eq!(a, LoadAction::UseStream { stream: 5, converted: false });
    assert!(load_step(s, LoadEvent::Added(true)).is_none());
}

#[test]
fn loading_through_a_conversion() {
    let (s, a) = load_step(LoadStage::Opening, LoadEvent::Opened(0)).unwrap();
    assert_eq!(a, LoadAction::ConvertToWav);
    let (s, a) = load_step(s, LoadEvent::Converted(true)).unwrap();
    assert_eq!(a, LoadAction::OpenWav);
    let (s2, a2) = load_step(s, LoadEvent::Opened(0)).unwrap();
    assert_eq!((s2, a2), (LoadStage::Failed, LoadAction::RemoveWav));
    let (s, _) = load_step(s, LoadEvent::Opened(9)).unwrap();
    let (s3, a3) = load_step(s, LoadEvent::Added(false)).unwrap();
    assert_eq!((s3, a3), (LoadStage::Failed, LoadAction::FreeStreamAndRemoveWav(9)));
    let (_, a4) = load_step(s, LoadEvent::Added(true)).unwrap();
    assert_eq!(a4, LoadAction::UseStream { stream: 9, converted: true });
    let (f, g) = load_step(LoadStage::Converting, LoadEvent::Converted(false)).unwrap();
    assert_eq!((f, g), (LoadStage::Failed, LoadAction::GiveUp));
    let (f, g) = load_step(LoadStage::Adding { stream: 4, converted: false }, LoadEvent::Added(false)).unwrap();
    assert_eq!((f, g), (LoadStage::Failed, LoadAction::FreeStream(4)));
}

#[test]
fn update_check_outcomes() {
    assert_eq!(fluyer::version::update_check_outcome("1.0.0", "1.0.1".to_string()), Some("1.0.1".to_string()));
    assert_eq!(fluyer::version::update_check_outcome("1.0.1", "1.0.1".to_string()), None);
    assert_eq!(fluyer::version::update_check_outcome("v2.0", "1.9".to_string()), None);
}

fn text(s: &str) -> Option<String> {
    Some(s.to_string())
}

#[test]
fn lyric_search_prefers_synced_local_lyrics() {
    assert_eq!(
        lyric_step(LyricStage::LrcFile, LyricEvent::LrcRead(text("[00:01] a")), "k"),
        (LyricStage::Done, LyricAction::Finish(None, Ok("[00:01] a".to_string())))
    );
    assert_eq!(
        lyric_step(LyricStage::LrcFile, LyricEvent::LrcRead(text("plain")), "k"),
        (LyricStage::Embedded, LyricAction::ReadEmbedded)
    );
    assert_eq!(
        lyric_step(LyricStage::LrcFile, LyricEvent::LrcRead(None), "k"),
        (LyricStage::Embedded, LyricAction::ReadEmbedded)
    );
    assert_eq!(
        lyric_step(LyricStage::Embedded, LyricEvent::EmbeddedRead(text("[01:00] b")), "k"),
        (LyricStage::Done, LyricAction::Finish(None, Ok("[01:00] b".to_string())))
    );
    assert_eq!(
        lyric_step(LyricStage::Embedded, LyricEvent::EmbeddedRead(None), "k"),
        (LyricStage::Queue, LyricAction::LookUpQueue)
    );
}

#[test]
fn lyric_search_follows_the_queue() {
    assert_eq!(
        lyric_step(LyricStage::Queue, LyricEvent::QueueStatus(Some(LyricRequestStatus::Loaded)), "k"),
        (LyricStage::QueuedCache, LyricAction::ReadCache)
    );
    assert_eq!(
        lyric_step(LyricStage::QueuedCache, LyricEvent::CacheRead(text("x")), "k"),
        (LyricStage::Done, LyricAction::Finish(None, Ok("x".to_string())))
    );
    assert_eq!(
        lyric_step(LyricStage::QueuedCache, LyricEvent::CacheRead(None), "k"),
        (LyricStage::Done, LyricAction::Finish(None, Err("Lyrics cache file not found: k".to_string())))
    );
    assert_eq!(
        lyric_step(LyricStage::Queue, LyricEvent::QueueStatus(Some(LyricRequestStatus::Failed)), "k"),
        (LyricStage::Done, LyricAction::Finish(None, Err("Lyrics fetch previously failed: k".to_string())))
    );
    assert_eq!(
        lyric_step(LyricStage::Queue, LyricEvent::QueueStatus(Some(LyricRequestStatus::Pending)), "k"),
        (LyricStage::Waiting, LyricAction::Wait)
    );
    assert_eq!(
        lyric_step(LyricStage::Waiting, LyricEvent::WaitOver(LyricRequestStatus::Loaded), "k"),
        (LyricStage::WaitedCache, LyricAction::ReadCache)
    );
    assert_eq!(
        lyric_step(LyricStage::Waiting, LyricEvent::WaitOver(LyricRequestStatus::Failed), "k"),
        (LyricStage::Done, LyricAction::Finish(None, Err("Lyrics fetch failed: k".to_string())))
    );
    assert_eq!(
        lyric_step(LyricStage::WaitedCache, LyricEvent::CacheRead(text("y")), "k"),
        (LyricStage::Done, LyricAction::Finish(None, Ok("y".to_string())))
    );
}

#[test]
fn lyric_search_uses_the_cache_then_downloads() {
    assert_eq!(
        lyric_step(LyricStage::Queue, LyricEvent::QueueStatus(None), "k"),
        (LyricStage::FreshCache, LyricAction::ReadCache)
    );
    assert_eq!(
        lyric_step(LyricStage::FreshCache, LyricEvent::CacheRead(text("c")), "k"),
        (LyricStage::Done, LyricAction::Finish(Some(LyricRequestStatus::Loaded), Ok("c".to_string())))
    );
    assert_eq!(
        lyric_step(LyricStage::FreshCache, LyricEvent::CacheRead(None), "k"),
        (LyricStage::Fetching, LyricAction::Fetch)
    );
    assert_eq!(
        lyric_step(LyricStage::Fetching, LyricEvent::Fetched(text("d")), "k"),
        (LyricStage::Done, LyricAction::Finish(Some(LyricRequestStatus::Loaded), Ok("d".to_string())))
    );
    assert_eq!(
        lyric_step(LyricStage::Fetching, LyricEvent::Fetched(None), "k"),
        (
            LyricStage::Done,
            LyricAction::Finish(Some(LyricRequestStatus::Failed), Err("Failed to get lyrics for: k".to_string()))
        )
    );
    assert_eq!(
        lyric_step(LyricStage::Fetching, LyricEvent::CacheRead(None), "k"),
        (LyricStage::Fetching, LyricAction::Nothing)
    );
    assert_eq!(
        lyric_step(LyricStage::Done, LyricEvent::Fetched(None), "k"),
        (LyricStage::Done, LyricAction::Nothing)
    );
}
