use monora::capture::{
    describe_monitor, frame_interval_nanos, monitor_display_name, monitor_rect, pack_rows, rects_equal,
    renumber_monitors, resolve_capture_targets, until_nul, Rect,
};
use monora::id_map::IdMap;
use monora::models::MonitorInfo;

fn monitor(id: &str, index: usize, x: i32, y: i32, w: u32, h: u32) -> MonitorInfo {
    MonitorInfo {
        id: id.to_string(),
        name: format!("Monitor {index}"),
        index,
        x,
        y,
        width: w,
        height: h,
        refresh_rate_hz: None,
        is_primary: index == 1,
    }
}

#[test]
fn id_map_insert_get_and_overwrite() {
    let mut m: IdMap<isize> = IdMap::new();
    assert!(m.is_empty());
    m.insert("monitor:a".to_string(), 10);
    m.insert("monitor:b".to_string(), 20);
    assert_eq!(m.len(), 2);
    assert_eq!(m.get(&"monitor:a".to_string()), Some(&10));
    assert_eq!(m.get(&"monitor:c".to_string()), None);
    m.insert("monitor:a".to_string(), 30);
    assert_eq!(m.len(), 2);
    assert_eq!(m.get(&"monitor:a".to_string()), Some(&30));
    assert_eq!(m.first_value(), Some(&30));
    m.clear();
    assert!(m.is_empty());
    assert_eq!(m.first_value(), None);
}

#[test]
fn resolve_targets_in_selection_order() {
    let all = vec![monitor("monitor:a", 1, 0, 0, 1920, 1080), monitor("monitor:b", 2, 1920, 0, 1280, 1024)];
    let mut handles = IdMap::new();
    handles.insert("monitor:a".to_string(), 101);
    handles.insert("monitor:b".to_string(), 202);
    let ids = vec!["monitor:b".to_string(), "monitor:a".to_string()];
    let t = resolve_capture_targets(&ids, &all, &handles).unwrap();
    assert_eq!(t.len(), 2);
    assert_eq!(t[0].info.id, "monitor:b");
    assert_eq!(t[0].hmonitor, 202);
    assert_eq!(t[0].info.width, 1280);
    assert_eq!(t[1].info.id, "monitor:a");
    assert_eq!(t[1].hmonitor, 101);
}

#[test]
fn resolve_unknown_monitor() {
    let all = vec![monitor("monitor:a", 1, 0, 0, 1920, 1080)];
    let mut handles = IdMap::new();
    handles.insert("monitor:a".to_string(), 101);
    let ids = vec!["monitor:a".to_string(), "monitor:z".to_string()];
    assert_eq!(resolve_capture_targets(&ids, &all, &handles).unwrap_err(), "Unknown monitor: monitor:z");
}

#[test]
fn resolve_monitor_info_missing() {
    let all = vec![monitor("monitor:a", 1, 0, 0, 1920, 1080)];
    let mut handles = IdMap::new();
    handles.insert("monitor:a".to_string(), 101);
    handles.insert("monitor:b".to_string(), 102);
    let ids = vec!["monitor:b".to_string()];
    assert_eq!(resolve_capture_targets(&ids, &all, &handles).unwrap_err(), "Monitor info missing: monitor:b");
}

#[test]
fn resolve_empty_selection() {
    let all = vec![monitor("monitor:a", 1, 0, 0, 1920, 1080)];
    let handles = IdMap::new();
    assert_eq!(resolve_capture_targets(&vec![], &all, &handles).unwrap_err(), "No monitors selected");
}

#[test]
fn renumbering_follows_enumeration_order() {
    let mut mons = vec![monitor("a", 7, 0, 0, 1, 1), monitor("b", 7, 0, 0, 1, 1), monitor("c", 0, 0, 0, 1, 1)];
    renumber_monitors(&mut mons);
    let idx: Vec<usize> = mons.iter().map(|m| m.index).collect();
    assert_eq!(idx, vec![1, 2, 3]);
    assert_eq!(mons[2].id, "c");
}

#[test]
fn monitor_rectangles() {
    let m = monitor("a", 1, -1280, 100, 1280, 1024);
    let r = monitor_rect(&m);
    assert_eq!(r, Rect { left: -1280, top: 100, right: 0, bottom: 1124 });
    assert!(rects_equal(r, Rect { left: -1280, top: 100, right: 0, bottom: 1124 }));
    assert!(!rects_equal(r, Rect { left: -1280, top: 100, right: 1, bottom: 1124 }));
}

#[test]
fn device_name_stops_at_nul() {
    let mut units = [0u16; 8];
    for (i, c) in "ABC".encode_utf16().enumerate() {
        units[i] = c;
    }
    assert_eq!(until_nul(&units), vec![65, 66, 67]);
    assert_eq!(until_nul(&[1, 2, 3]), vec![1, 2, 3]);
    assert_eq!(until_nul(&[0, 2, 3]), Vec::<u16>::new());
}

#[test]
fn display_names() {
    assert_eq!(monitor_display_name(1, ""), "Monitor 1");
    assert_eq!(monitor_display_name(12, "  \\\\.\\DISPLAY2 "), "Monitor 12 (\\\\.\\DISPLAY2)");
}

#[test]
fn describe_enumerated_monitor() {
    let mut dev = [0u16; 32];
    for (i, c) in "\\\\.\\DISPLAY1".encode_utf16().enumerate() {
        dev[i] = c;
    }
    let rect = Rect { left: 1920, top: -200, right: 3200, bottom: 824 };
    let m = describe_monitor("monitor:0x10001".to_string(), &dev, 1, rect, 0);
    assert_eq!(m.name, "Monitor 2 (\\\\.\\DISPLAY1)");
    assert_eq!(m.index, 2);
    assert_eq!((m.x, m.y, m.width, m.height), (1920, -200, 1280, 1024));
    assert!(!m.is_primary);
    assert_eq!(m.refresh_rate_hz, None);
    let p = describe_monitor("monitor:0x1".to_string(), &[0u16; 32], 0, rect, 3);
    assert_eq!(p.name, "Monitor 1");
    assert!(p.is_primary);
}

#[test]
fn invalid_utf16_device_name_is_replaced() {
    let dev = [0xD800u16, 0x41, 0];
    let m = describe_monitor("id".to_string(), &dev, 0, Rect { left: 0, top: 0, right: 2, bottom: 2 }, 0);
    assert_eq!(m.name, "Monitor 1 (\u{FFFD}A)");
}

#[test]
fn rows_are_packed_without_padding() {
    // 2x2 pixels, rows 12 bytes apart (4 bytes of padding each).
    let mut mapped = Vec::new();
    for row in 0..2u8 {
        for b in 0..8u8 {
            mapped.push(row * 100 + b);
        }
        mapped.extend_from_slice(&[255, 255, 255, 255]);
    }
    let packed = pack_rows(&mapped, 12, 2, 2);
    assert_eq!(packed, vec![0, 1, 2, 3, 4, 5, 6, 7, 100, 101, 102, 103, 104, 105, 106, 107]);
    assert_eq!(pack_rows(&[], 0, 5, 0), Vec::<u8>::new());
}

#[test]
fn emit_interval() {
    assert_eq!(frame_interval_nanos(30), 33_333_333);
    assert_eq!(frame_interval_nanos(60), 16_666_666);
    assert_eq!(frame_interval_nanos(0), 1_000_000_000);
}
