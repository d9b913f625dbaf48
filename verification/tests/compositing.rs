use monora::capture::CapturedFrame;
use monora::compositor::{blit_bgra, combined_canvas, composite_frame, preview_source_frame};
use monora::id_map::IdMap;
use monora::models::{MonitorCaptureTarget, MonitorInfo, RecordingMode};
use monora::preview::{base64_preview, bgra_to_rgb, jpeg_base64_from_bgra};

fn target(id: &str, index: usize, x: i32, y: i32, w: u32, h: u32) -> MonitorCaptureTarget {
    MonitorCaptureTarget {
        info: MonitorInfo {
            id: id.to_string(),
            name: format!("Monitor {index}"),
            index,
            x,
            y,
            width: w,
            height: h,
            refresh_rate_hz: None,
            is_primary: index == 1,
        },
        hmonitor: index as isize,
    }
}

fn solid(w: u32, h: u32, px: [u8; 4], ts: i64) -> CapturedFrame {
    let mut bgra = Vec::new();
    for _ in 0..(w * h) {
        bgra.extend_from_slice(&px);
    }
    CapturedFrame { width: w, height: h, bgra, timestamp_100ns: ts }
}

fn pixel(buf: &[u8], w: u32, x: u32, y: u32) -> [u8; 4] {
    let i = ((y * w + x) * 4) as usize;
    [buf[i], buf[i + 1], buf[i + 2], buf[i + 3]]
}

#[test]
fn canvas_of_no_targets() {
    assert_eq!(combined_canvas(&vec![]), (1920, 1080, 0, 0));
}

#[test]
fn canvas_spans_all_monitors() {
    let ts = vec![target("a", 1, 0, 0, 1920, 1080), target("b", 2, -1280, 200, 1280, 1024)];
    assert_eq!(combined_canvas(&ts), (3200, 1224, -1280, 0));
}

#[test]
fn canvas_is_at_least_two_pixels() {
    let ts = vec![target("a", 1, 5, 5, 1, 0)];
    assert_eq!(combined_canvas(&ts), (2, 2, 5, 5));
}

#[test]
fn blit_places_and_clips() {
    let mut canvas = vec![0u8; 3 * 2 * 4];
    let src = solid(2, 2, [1, 2, 3, 4], 0);
    blit_bgra(&mut canvas, 3, 2, 2, 1, 2, 2, &src.bgra);
    assert_eq!(pixel(&canvas, 3, 2, 1), [1, 2, 3, 4]);
    assert_eq!(pixel(&canvas, 3, 1, 1), [0, 0, 0, 0]);
    assert_eq!(pixel(&canvas, 3, 2, 0), [0, 0, 0, 0]);
    assert_eq!(canvas.iter().filter(|b| **b != 0).count(), 4);
}

#[test]
fn blit_skips_missing_source_pixels() {
    let mut canvas = vec![9u8; 2 * 1 * 4];
    // A 2x1 source that holds only one whole pixel.
    let src = vec![5u8, 6, 7, 8, 1, 1];
    blit_bgra(&mut canvas, 2, 1, 0, 0, 2, 1, &src);
    assert_eq!(canvas, vec![5, 6, 7, 8, 9, 9, 9, 9]);
}

#[test]
fn blit_outside_canvas_changes_nothing() {
    let mut canvas = vec![0u8; 2 * 2 * 4];
    let src = solid(2, 2, [1, 1, 1, 1], 0);
    blit_bgra(&mut canvas, 2, 2, 5, 0, 2, 2, &src.bgra);
    blit_bgra(&mut canvas, 2, 2, 0, 7, 2, 2, &src.bgra);
    assert_eq!(canvas, vec![0u8; 16]);
}

#[test]
fn composite_waits_for_every_monitor() {
    let ts = vec![target("a", 1, 0, 0, 2, 2), target("b", 2, 2, 0, 2, 2)];
    let mut frames = IdMap::new();
    frames.insert("a".to_string(), solid(2, 2, [1, 1, 1, 1], 50));
    assert!(composite_frame(&ts, &frames, 4, 2, 0, 0).is_none());
    assert!(composite_frame(&vec![], &frames, 4, 2, 0, 0).is_none());
}

#[test]
fn composite_places_monitors_side_by_side() {
    let ts = vec![target("a", 1, -2, 0, 2, 2), target("b", 2, 0, 1, 2, 1)];
    let mut frames = IdMap::new();
    frames.insert("a".to_string(), solid(2, 2, [1, 2, 3, 255], 70));
    frames.insert("b".to_string(), solid(2, 1, [9, 8, 7, 255], 40));
    let (w, h, mx, my) = combined_canvas(&ts);
    assert_eq!((w, h, mx, my), (4, 2, -2, 0));
    let f = composite_frame(&ts, &frames, w, h, mx, my).unwrap();
    assert_eq!((f.width, f.height, f.timestamp_100ns), (4, 2, 70));
    assert_eq!(pixel(&f.bgra, 4, 0, 0), [1, 2, 3, 255]);
    assert_eq!(pixel(&f.bgra, 4, 1, 1), [1, 2, 3, 255]);
    assert_eq!(pixel(&f.bgra, 4, 2, 0), [0, 0, 0, 0]);
    assert_eq!(pixel(&f.bgra, 4, 2, 1), [9, 8, 7, 255]);
    assert_eq!(pixel(&f.bgra, 4, 3, 1), [9, 8, 7, 255]);
}

#[test]
fn composite_timestamp_is_never_negative() {
    let ts = vec![target("a", 1, 0, 0, 2, 2)];
    let mut frames = IdMap::new();
    frames.insert("a".to_string(), solid(2, 2, [1, 1, 1, 1], -30));
    assert_eq!(composite_frame(&ts, &frames, 2, 2, 0, 0).unwrap().timestamp_100ns, 0);
}

#[test]
fn later_monitor_covers_earlier() {
    let ts = vec![target("a", 1, 0, 0, 2, 2), target("b", 2, 1, 0, 2, 2)];
    let mut frames = IdMap::new();
    frames.insert("a".to_string(), solid(2, 2, [1, 1, 1, 1], 1));
    frames.insert("b".to_string(), solid(2, 2, [2, 2, 2, 2], 2));
    let f = composite_frame(&ts, &frames, 3, 2, 0, 0).unwrap();
    assert_eq!(pixel(&f.bgra, 3, 0, 0), [1, 1, 1, 1]);
    assert_eq!(pixel(&f.bgra, 3, 1, 0), [2, 2, 2, 2]);
}

#[test]
fn preview_prefers_the_composite() {
    let ts = vec![target("a", 1, 0, 0, 2, 2), target("b", 2, 2, 0, 2, 2)];
    let mut frames = IdMap::new();
    frames.insert("b".to_string(), solid(2, 2, [3, 3, 3, 3], 9));
    let p = preview_source_frame(&RecordingMode::Combined, &ts, &frames, 4, 2, 0, 0).unwrap();
    assert_eq!((p.width, p.height), (2, 2));
    frames.insert("a".to_string(), solid(2, 2, [4, 4, 4, 4], 5));
    let p = preview_source_frame(&RecordingMode::Combined, &ts, &frames, 4, 2, 0, 0).unwrap();
    assert_eq!((p.width, p.height, p.timestamp_100ns), (4, 2, 9));
    let s = preview_source_frame(&RecordingMode::Separate, &ts, &frames, 4, 2, 0, 0).unwrap();
    assert_eq!((s.width, s.timestamp_100ns), (2, 9));
    assert!(preview_source_frame(&RecordingMode::Separate, &ts, &IdMap::new(), 4, 2, 0, 0).is_none());
}

#[test]
fn rgb_from_bgra() {
    assert_eq!(bgra_to_rgb(&[1, 2, 3, 4, 5, 6, 7, 8, 9]), vec![3, 2, 1, 7, 6, 5]);
    assert_eq!(bgra_to_rgb(&[]), Vec::<u8>::new());
}

#[test]
fn base64_of_jpeg_bytes() {
    assert_eq!(base64_preview(Some(vec![0, 1, 2])), Some("AAEC".to_string()));
    assert_eq!(base64_preview(Some(vec![0xFF, 0xD8, 0xFF])), Some("/9j/".to_string()));
    assert_eq!(base64_preview(None), None);
}

#[test]
fn preview_jpeg_of_small_frame() {
    let f = solid(4, 2, [10, 20, 200, 255], 0);
    let text = jpeg_base64_from_bgra(4, 2, &f.bgra).unwrap();
    assert!(text.starts_with("/9j/"));
}

#[test]
fn preview_of_empty_or_short_frames() {
    assert_eq!(jpeg_base64_from_bgra(0, 2, &[]), None);
    assert_eq!(jpeg_base64_from_bgra(2, 2, &[0u8; 8]), None);
}

#[test]
fn preview_too_wide_for_jpeg() {
    let bgra = vec![0u8; 70_000 * 4];
    assert_eq!(jpeg_base64_from_bgra(70_000, 1, &bgra), None);
}
