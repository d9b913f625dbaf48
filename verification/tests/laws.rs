use monora::compositor::combined_canvas;
use monora::models::{MonitorCaptureTarget, MonitorInfo, Quality};
use monora::session::{unique_name_candidate, SessionStatus};
use monora::timestamps::qpc_to_100ns;
use std::collections::HashSet;

fn target(id: &str, x: i32, y: i32, w: u32, h: u32) -> MonitorCaptureTarget {
    MonitorCaptureTarget {
        info: MonitorInfo {
            id: id.to_string(),
            name: id.to_string(),
            index: 1,
            x,
            y,
            width: w,
            height: h,
            refresh_rate_hz: None,
            is_primary: false,
        },
        hmonitor: 0,
    }
}

#[test]
fn clock_never_runs_backwards() {
    let f = 3_579_545;
    let mut prev = qpc_to_100ns(-20, f);
    for c in -19..20 {
        let now = qpc_to_100ns(c, f);
        assert!(prev <= now);
        prev = now;
    }
}

#[test]
fn presets_are_ordered() {
    for (w, h) in [(1u32, 1u32), (640, 480), (1920, 1080), (3840, 2160)] {
        assert!(Quality::Balanced.video_bitrate_bps(w, h) <= Quality::High.video_bitrate_bps(w, h));
        assert!(Quality::High.video_bitrate_bps(w, h) <= Quality::VeryHigh.video_bitrate_bps(w, h));
    }
    assert!(Quality::Balanced.audio_bitrate_bps() < Quality::High.audio_bitrate_bps());
    assert!(Quality::High.audio_bitrate_bps() < Quality::VeryHigh.audio_bitrate_bps());
}

#[test]
fn every_monitor_fits_on_the_canvas() {
    let ts = vec![
        target("a", 0, 0, 1920, 1080),
        target("b", -1280, 300, 1280, 1024),
        target("c", 1920, -400, 1080, 1920),
    ];
    let (w, h, mx, my) = combined_canvas(&ts);
    for t in &ts {
        assert!(t.info.x - mx >= 0 && t.info.y - my >= 0);
        assert!((t.info.x - mx) as u32 + t.info.width <= w);
        assert!((t.info.y - my) as u32 + t.info.height <= h);
    }
}

#[test]
fn candidate_names_never_repeat() {
    let names: HashSet<String> = (0..200u64).map(|n| unique_name_candidate("SimpleRecorder_x", ".mp4", n)).collect();
    assert_eq!(names.len(), 200);
}

#[test]
fn sessions_never_overlap() {
    let mut s = SessionStatus::new();
    assert!(s.begin_start().is_ok());
    assert!(s.begin_start().is_err());
    s.mark_recording();
    assert!(s.begin_start().is_err());
    s.request_stop();
    assert!(s.begin_start().is_err());
    s.fail("x".to_string());
    assert!(s.begin_start().is_ok());
}
