use monora::capture::CapturedFrame;
use monora::id_map::IdMap;
use monora::library::{is_app_recording_name, sort_recordings_newest_first, RecordingEntry};
use monora::logging::{log_line, LogLevel};
use monora::models::{AppSettings, MonitorCaptureTarget, MonitorInfo, RecordingMode, RecordingProgress, RecordingState};
use monora::session::{
    check_selection, final_notice, frame_is_new, plan_separate_writes, frame_period_ms, hotkey_action, output_stems, progress_payload,
    recording_progress, tray_exit_allowed, unique_name_candidate, writer_plans, HotkeyAction, LoopClock,
    SessionNotice, SessionStatus, WriterPlan,
};

fn entry(name: &str, modified: i64) -> RecordingEntry {
    RecordingEntry { file_name: name.to_string(), path: format!("out/{name}"), size_bytes: 1, modified_unix_ms: modified }
}

fn target(index: usize, w: u32, h: u32) -> MonitorCaptureTarget {
    MonitorCaptureTarget {
        info: MonitorInfo {
            id: format!("monitor:{index}"),
            name: format!("Monitor {index}"),
            index,
            x: 0,
            y: 0,
            width: w,
            height: h,
            refresh_rate_hz: None,
            is_primary: false,
        },
        hmonitor: 0,
    }
}

#[test]
fn recording_names() {
    assert!(is_app_recording_name("SimpleRecorder_2026-09-26_00-45-32.mp4"));
    assert!(is_app_recording_name("simplerecorder_x.MP4"));
    assert!(is_app_recording_name("SIMPLERECORDER_.mp4"));
    assert!(!is_app_recording_name("SimpleRecorder_2026.mkv"));
    assert!(!is_app_recording_name("Recorder_2026.mp4"));
    assert!(!is_app_recording_name("SimpleRecorder.mp4"));
    assert!(!is_app_recording_name(""));
    assert!(is_app_recording_name("SimpleRecorder_é.mp4"));
}

#[test]
fn recordings_newest_first_and_stable() {
    let mut v = vec![entry("a", 10), entry("b", 30), entry("c", 10), entry("d", 20), entry("e", 30)];
    sort_recordings_newest_first(&mut v);
    let names: Vec<&str> = v.iter().map(|e| e.file_name.as_str()).collect();
    assert_eq!(names, vec!["b", "e", "d", "a", "c"]);
    let mut empty: Vec<RecordingEntry> = vec![];
    sort_recordings_newest_first(&mut empty);
    assert!(empty.is_empty());
}

#[test]
fn session_lifecycle() {
    let mut s = SessionStatus::new();
    assert_eq!(s.state(), RecordingState::Idle);
    assert!(s.begin_start().is_ok());
    assert_eq!(s.state(), RecordingState::Starting);
    assert_eq!(s.begin_start().unwrap_err(), "A recording session is already active");
    s.mark_recording();
    assert!(s.begin_start().is_err());
    s.request_stop();
    assert_eq!(s.state(), RecordingState::Stopping);
    assert!(s.may_join_worker());
    assert!(s.begin_start().is_err());
    s.complete();
    assert_eq!(s.state(), RecordingState::Completed);
    assert!(s.progress().is_none());
    assert!(s.begin_start().is_ok());
}

#[test]
fn failed_session_keeps_error_until_next_start() {
    let mut s = SessionStatus::new();
    s.begin_start().unwrap();
    s.fail("Display capture did not start. Try again or select one monitor.".to_string());
    let st = s.status();
    assert_eq!(st.state, RecordingState::Error);
    assert_eq!(st.last_error.as_deref(), Some("Display capture did not start. Try again or select one monitor."));
    s.begin_start().unwrap();
    assert_eq!(s.last_error(), None);
}

#[test]
fn progress_is_reported() {
    let settings = AppSettings::defaults_in("out".to_string());
    let mut s = SessionStatus::new();
    let p = recording_progress(3, 2, &vec!["a.mp4".to_string()], 4096, &settings);
    s.set_progress(p);
    let got = s.progress().unwrap();
    assert_eq!(got.elapsed_secs, 3);
    assert_eq!(got.state, RecordingState::Recording);
    assert_eq!(got.display_count, 2);
    assert_eq!(got.output_paths, vec!["a.mp4".to_string()]);
    assert_eq!(got.file_size_bytes, Some(4096));
    assert!(got.system_audio && got.microphone);
}

#[test]
fn hotkey_decisions() {
    assert_eq!(hotkey_action(RecordingState::Recording), HotkeyAction::StopRecording);
    assert_eq!(hotkey_action(RecordingState::Starting), HotkeyAction::StopRecording);
    assert_eq!(hotkey_action(RecordingState::Idle), HotkeyAction::StartRecording);
    assert_eq!(hotkey_action(RecordingState::Completed), HotkeyAction::StartRecording);
    assert_eq!(hotkey_action(RecordingState::Error), HotkeyAction::StartRecording);
    assert_eq!(hotkey_action(RecordingState::Stopping), HotkeyAction::Nothing);
}

#[test]
fn tray_exit_only_when_inactive() {
    assert!(!tray_exit_allowed(RecordingState::Recording));
    assert!(!tray_exit_allowed(RecordingState::Starting));
    assert!(tray_exit_allowed(RecordingState::Stopping));
    assert!(tray_exit_allowed(RecordingState::Idle));
}

#[test]
fn notices_after_progress_loop() {
    assert!(matches!(final_notice(RecordingState::Completed, None), SessionNotice::Stopped));
    match final_notice(RecordingState::Error, None) {
        SessionNotice::Failed(e) => assert_eq!(e, "Recording failed"),
        _ => panic!("expected a failure notice"),
    }
    match final_notice(RecordingState::Error, Some("boom".to_string())) {
        SessionNotice::Failed(e) => assert_eq!(e, "boom"),
        _ => panic!("expected a failure notice"),
    }
    assert!(matches!(final_notice(RecordingState::Stopping, None), SessionNotice::Silent));
}

#[test]
fn payload_without_progress() {
    let mut settings = AppSettings::defaults_in("out".to_string());
    settings.selected_monitor_ids = vec!["a".to_string(), "b".to_string()];
    settings.microphone_enabled = false;
    let p = progress_payload(None, RecordingState::Stopping, &settings);
    assert_eq!(p.elapsed_secs, 0);
    assert_eq!(p.state, RecordingState::Stopping);
    assert_eq!(p.display_count, 2);
    assert!(p.output_paths.is_empty());
    assert_eq!(p.file_size_bytes, None);
    assert!(p.system_audio);
    assert!(!p.microphone);
    let own = RecordingProgress {
        elapsed_secs: 9,
        state: RecordingState::Recording,
        display_count: 1,
        output_paths: vec![],
        file_size_bytes: Some(1),
        system_audio: false,
        microphone: false,
    };
    assert_eq!(progress_payload(Some(own), RecordingState::Recording, &settings).elapsed_secs, 9);
}

#[test]
fn selection_is_required() {
    let mut settings = AppSettings::defaults_in("out".to_string());
    assert_eq!(check_selection(&settings).unwrap_err(), "Select at least one display before recording.");
    settings.selected_monitor_ids.push("monitor:a".to_string());
    assert!(check_selection(&settings).is_ok());
}

#[test]
fn file_stems() {
    let ts = vec![target(1, 10, 10), target(12, 10, 10)];
    assert_eq!(output_stems(RecordingMode::Combined, "2026-09-26_00-45-32", &ts), vec!["SimpleRecorder_2026-09-26_00-45-32"]);
    assert_eq!(
        output_stems(RecordingMode::Separate, "2026-09-26_00-45-32", &ts),
        vec!["SimpleRecorder_2026-09-26_00-45-32_Monitor-1", "SimpleRecorder_2026-09-26_00-45-32_Monitor-12"]
    );
}

#[test]
fn candidate_names() {
    assert_eq!(unique_name_candidate("SimpleRecorder_x", ".mp4", 0), "SimpleRecorder_x.mp4");
    assert_eq!(unique_name_candidate("SimpleRecorder_x", ".mp4", 1), "SimpleRecorder_x_1.mp4");
    assert_eq!(unique_name_candidate("SimpleRecorder_x", ".mp4", 27), "SimpleRecorder_x_27.mp4");
}

#[test]
fn encoders_per_mode() {
    let mut settings = AppSettings::defaults_in("out".to_string());
    let ts = vec![target(1, 1920, 1080), target(2, 1280, 1024)];
    assert_eq!(writer_plans(&settings, &ts, 3200, 1080), vec![WriterPlan { width: 3200, height: 1080, with_audio: true }]);
    settings.recording_mode = RecordingMode::Separate;
    assert_eq!(
        writer_plans(&settings, &ts, 3200, 1080),
        vec![
            WriterPlan { width: 1920, height: 1080, with_audio: true },
            WriterPlan { width: 1280, height: 1024, with_audio: false },
        ]
    );
    settings.system_audio_enabled = false;
    settings.microphone_enabled = false;
    assert!(!writer_plans(&settings, &ts, 3200, 1080)[0].with_audio);
}

#[test]
fn loop_timers() {
    assert_eq!(frame_period_ms(30), 33);
    assert_eq!(frame_period_ms(0), 1000);
    let mut c = LoopClock::start(30);
    let a = c.tick(0);
    assert!(!a.publish_progress && a.refresh_preview && a.encode);
    let a = c.tick(10);
    assert!(!a.publish_progress && !a.refresh_preview && a.encode);
    c.frame_written(10);
    let a = c.tick(20);
    assert!(!a.encode);
    let a = c.tick(43);
    assert!(a.encode);
    let a = c.tick(500);
    assert!(a.publish_progress && !a.refresh_preview);
    let a = c.tick(800);
    assert!(!a.publish_progress && a.refresh_preview);
}

#[test]
fn new_frames_are_written_once() {
    let mut last: IdMap<i64> = IdMap::new();
    let id = "monitor:a".to_string();
    assert!(frame_is_new(&last, &id, 0));
    assert!(!frame_is_new(&last, &id, -1));
    last.insert(id.clone(), 500);
    assert!(!frame_is_new(&last, &id, 500));
    assert!(frame_is_new(&last, &id, 501));
}

#[test]
fn log_lines() {
    assert_eq!(log_line("2026-09-26 00:45:32", LogLevel::Info, "Simple Recorder starting"), "[2026-09-26 00:45:32] [INFO] Simple Recorder starting\n");
    assert_eq!(log_line("t", LogLevel::Warn, "w"), "[t] [WARN] w\n");
    assert_eq!(log_line("t", LogLevel::Error, ""), "[t] [ERROR] \n");
}

fn frame(ts: i64) -> CapturedFrame {
    CapturedFrame { width: 1, height: 1, bgra: vec![0, 0, 0, 0], timestamp_100ns: ts }
}

#[test]
fn separate_mode_writes_only_new_frames() {
    let ts = vec![target(1, 1, 1), target(2, 1, 1), target(3, 1, 1)];
    let mut frames = IdMap::new();
    frames.insert("monitor:1".to_string(), frame(100));
    frames.insert("monitor:3".to_string(), frame(300));
    let mut last: IdMap<i64> = IdMap::new();
    assert_eq!(plan_separate_writes(&ts, &frames, &mut last), vec![0, 2]);
    assert_eq!(last.get(&"monitor:1".to_string()), Some(&100));
    assert_eq!(plan_separate_writes(&ts, &frames, &mut last), Vec::<usize>::new());
    frames.insert("monitor:3".to_string(), frame(301));
    frames.insert("monitor:2".to_string(), frame(-1));
    assert_eq!(plan_separate_writes(&ts, &frames, &mut last), vec![2]);
}

#[test]
fn monitor_selected_twice_is_written_once() {
    let ts = vec![target(1, 1, 1), target(1, 1, 1)];
    let mut frames = IdMap::new();
    frames.insert("monitor:1".to_string(), frame(5));
    let mut last: IdMap<i64> = IdMap::new();
    assert_eq!(plan_separate_writes(&ts, &frames, &mut last), vec![0]);
}

#[test]
fn example_file_name() {
    let ts = vec![target(1, 1, 1)];
    let stems = output_stems(RecordingMode::Combined, "2026-09-26_00-45-32", &ts);
    assert_eq!(unique_name_candidate(&stems[0], ".mp4", 0), "SimpleRecorder_2026-09-26_00-45-32.mp4");
}
