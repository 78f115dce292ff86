use fluyer::engine::Platform;
use fluyer::metadata::MusicMetadata;
use fluyer::metrics::{
    counters_without_private_ws, footprint_memory, gpu_instance_pid, memory_totals,
    order_processes, process_display_name, process_memory, process_tree, split_instance_list,
    MemoryCounters, ProcessEntry,
};
use std::path::Path;
use fluyer::tools::{
    converted_wav_name, cover_copy_usable, cover_extract_args, cover_probe_args,
    cover_probe_verdict, cover_reencode_verdict, pcm_wav_args, probe_args, visualizer_args,
    visualizer_file_name,
};

#[test]
fn tool_locations() {
    let t = MusicMetadata::tool_paths("/data/app", Platform::Linux);
    assert_eq!(MusicMetadata::ffmpeg_path(&t), "/data/app/bin/ffmpeg");
    assert_eq!(MusicMetadata::ffprobe_path(&t), "/data/app/bin/ffprobe");
    let t = MusicMetadata::tool_paths("/res", Platform::MacOs);
    assert_eq!(MusicMetadata::ffmpeg_path(&t), "/res/libs/ffmpeg/bin/ffmpeg");
}

#[test]
fn tools_share_their_directory() {
    for base in ["/data/app", "rel/dir/", "", "/"] {
        for platform in [Platform::Linux, Platform::Windows] {
            let t = MusicMetadata::tool_paths(base, platform);
            let ffmpeg = Path::new(MusicMetadata::ffmpeg_path(&t));
            let ffprobe = Path::new(MusicMetadata::ffprobe_path(&t));
            assert_eq!(ffmpeg.file_name().unwrap(), "ffmpeg");
            assert_eq!(ffprobe.file_name().unwrap(), "ffprobe");
            assert_eq!(ffmpeg.parent(), ffprobe.parent());
        }
    }
}

#[test]
fn command_lines() {
    assert_eq!(
        probe_args("/a.mp3"),
        vec!["-v", "quiet", "-print_format", "json", "-show_format", "-show_streams", "/a.mp3"]
    );
    assert_eq!(
        pcm_wav_args("/in.ape", "/tmp/in_converted.wav"),
        vec![
            "-y", "-i", "/in.ape", "-vn", "-acodec", "pcm_s16le", "-ar", "44100", "-ac", "2",
            "-f", "wav", "/tmp/in_converted.wav"
        ]
    );
    assert_eq!(
        visualizer_args("/a b.mp3", "/tmp/o.mp3", Platform::Linux)[..3].to_vec(),
        vec!["-y", "-i", "/a b.mp3"]
    );
    let android = visualizer_args("/a b.mp3", "/tmp/o.mp3", Platform::Android);
    assert_eq!(android[..2].to_vec(), vec!["-i", "\"/a b.mp3\""]);
    assert_eq!(android.len(), 13);
    assert_eq!(android[12], "/tmp/o.mp3");
    assert_eq!(cover_probe_args("/x")[8], "/x");
    assert_eq!(cover_extract_args("/x", false)[4], "copy");
    assert_eq!(cover_extract_args("/x", true)[4], "bmp");
}

#[test]
fn temporary_file_names() {
    assert_eq!(converted_wav_name("/music/song.ape"), "song_converted.wav");
    assert_eq!(converted_wav_name("/"), "audio_converted.wav");
    assert_eq!(visualizer_file_name(1700000000123), "converted_1700000000123.mp3");
}

#[test]
fn cover_verdicts() {
    assert_eq!(cover_probe_verdict("/x", true, false).unwrap_err(), "No cover art in file /x");
    assert!(cover_probe_verdict("/x", true, true).is_ok());
    assert!(cover_copy_usable(true, true));
    assert!(!cover_copy_usable(true, false));
    assert_eq!(
        cover_reencode_verdict("/x", false, true, "bad").unwrap_err(),
        "Failed to extract cover art /x : bad"
    );
    assert_eq!(cover_reencode_verdict("/x", true, false, "").unwrap_err(), "No cover art in file: /x");
    assert!(cover_reencode_verdict("/x", true, true, "").is_ok());
}

#[test]
fn process_tree_collects_descendants() {
    let table = vec![
        (20, Some(10)),
        (30, Some(20)),
        (40, Some(99)),
        (10, None),
        (50, Some(30)),
        (60, None),
    ];
    let mut tree = process_tree(10, &table);
    assert_eq!(tree[0], 10);
    tree.sort();
    assert_eq!(tree, vec![10, 20, 30, 50]);
    assert_eq!(process_tree(7, &Vec::new()), vec![7]);
}

#[test]
fn memory_figures() {
    let c = MemoryCounters { working_set: 100, private_usage: 0, private_working_set: 0 };
    assert_eq!(process_memory(&c, 70), (70, 100, 70));
    let c = counters_without_private_ws(100, 150);
    assert_eq!(c.private_working_set, 100);
    assert_eq!(process_memory(&c, 1), (150, 100, 100));
    assert_eq!(footprint_memory(Some(0), 5), 5);
    assert_eq!(footprint_memory(Some(9), 5), 9);
    assert_eq!(footprint_memory(None, 5), 5);
}

fn entry(pid: u32, main: bool, pws: u64) -> ProcessEntry {
    ProcessEntry {
        pid,
        name: format!("p{}", pid),
        is_main: main,
        ram_bytes: pws + 1,
        working_set_bytes: pws + 2,
        private_ws_bytes: pws,
    }
}

#[test]
fn processes_are_listed_main_first_then_by_size() {
    let list = vec![entry(1, false, 5), entry(2, false, 9), entry(3, true, 1), entry(4, false, 9)];
    let totals = memory_totals(&list);
    assert_eq!(totals, (28, 32, 24));
    let ordered = order_processes(list);
    let pids: Vec<u32> = ordered.iter().map(|e| e.pid).collect();
    assert_eq!(pids, vec![3, 2, 4, 1]);
}

#[test]
fn webkit_process_names() {
    assert_eq!(process_display_name("com.apple.WebKit.WebContent", false), "WebContent");
    assert_eq!(process_display_name("com.apple.WebKit.GPU", false), "Graphics and Media");
    assert_eq!(process_display_name("com.apple.WebKit.Networking", false), "Networking");
    assert_eq!(process_display_name("com.apple.WebKit.com.apple.WebKit.Model", false), "Model");
    assert_eq!(process_display_name("com.apple.WebKit.GPU", true), "com.apple.WebKit.GPU");
}

fn units(s: &str) -> Vec<u16> {
    s.encode_utf16().collect()
}

#[test]
fn gpu_instances() {
    let mut buf = units("pid_12_luid_a");
    buf.push(0);
    buf.push(0);
    buf.extend(units("ignored"));
    assert_eq!(split_instance_list(&buf), vec![units("pid_12_luid_a")]);
    let mut buf = units("a");
    buf.push(0);
    buf.push(0);
    buf.push(0);
    assert_eq!(split_instance_list(&buf), vec![units("a")]);
    let mut buf = units("x");
    buf.push(0);
    buf.extend(units("y"));
    buf.push(0);
    buf.extend(units("tail"));
    assert_eq!(split_instance_list(&buf), vec![units("x"), units("y")]);
    assert_eq!(gpu_instance_pid(&units("pid_12_luid_a"), &vec![3, 12]), Some(12));
    assert_eq!(gpu_instance_pid(&units("pid_123_luid"), &vec![12, 123]), Some(12));
    assert_eq!(gpu_instance_pid(&units("pid_5"), &vec![6]), None);
}

#[test]
fn screenshot_text_is_decoded() {
    assert_eq!(fluyer::screenshot::screenshot_data("aGk=").unwrap(), vec![104u8, 105]);
    let err = fluyer::screenshot::screenshot_data("!!").unwrap_err();
    assert!(err.starts_with("Failed to decode base64: "));
    assert!(err.len() > "Failed to decode base64: ".len());
    assert_eq!(
        fluyer::screenshot::decode_outcome(Err("bad".to_string())).unwrap_err(),
        "Failed to decode base64: bad"
    );
    assert_eq!(fluyer::screenshot::SCREENSHOT_FILE_NAME, "fluyer_preview.png");
}

#[test]
fn cover_copy_names() {
    assert_eq!(fluyer::media::unique_cover_name(42, Some("png")), "fluyer_cover_42.png");
    assert_eq!(fluyer::media::unique_cover_name(7, None), "fluyer_cover_7.jpg");
}
