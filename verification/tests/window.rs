use cinnamon_wallpaper::config::WindowConfig;
use cinnamon_wallpaper::desktop::{MonitorInfo, ScreenArea};
use cinnamon_wallpaper::video::{PixelFormat, VideoFrame};
use cinnamon_wallpaper::window::{
    find_atom, fullscreen_monitors_change, icons_shown, monitor_index, motif_change, nemo_windows,
    required_atoms, size_hints, window_area, window_state_change, window_type_change, IconCare,
    WallpaperWindow, WM_CLASS,
};

const SECOND: u128 = 1_000_000_000;

fn info(x: i32, y: i32, width: u32, height: u32) -> MonitorInfo {
    MonitorInfo { x, y, width, height, primary: false }
}

fn all_atoms() -> Vec<(String, u32)> {
    required_atoms().into_iter().zip(100..).collect()
}

fn frame(format: PixelFormat, data: Vec<u8>) -> VideoFrame {
    VideoFrame { width: 65537, height: 2, data, format, pts_nanos: None }
}

fn window() -> WallpaperWindow {
    WallpaperWindow::new(&WindowConfig::default(), &info(0, 0, 1920, 1080), 20 * SECOND)
}

#[test]
fn atoms_are_found_by_name() {
    let names = required_atoms();
    assert_eq!(names.len(), 10);
    assert_eq!(names[0], "_NET_WM_WINDOW_TYPE");
    assert_eq!(names[9], "_NET_WM_FULLSCREEN_MONITORS");
    assert_eq!(find_atom(&all_atoms(), "_NET_WM_STATE"), Some(103));
    assert_eq!(find_atom(&all_atoms(), "_NET_WM"), None);
}

#[test]
fn window_properties() {
    let atoms = all_atoms();
    let c = window_type_change(&atoms).unwrap();
    assert_eq!((c.property, c.values), (100, vec![101]));
    let c = window_state_change(&atoms).unwrap();
    assert_eq!((c.property, c.values), (103, vec![104, 105, 106, 107]));
    let c = motif_change(&atoms).unwrap();
    assert_eq!((c.property, c.values), (108, vec![2, 0, 0, 0, 0]));
    let c = fullscreen_monitors_change(&atoms, 3).unwrap();
    assert_eq!((c.property, c.values), (109, vec![3, 3, 3, 3]));
}

#[test]
fn unknown_atoms_are_left_out() {
    let atoms = vec![
        ("_NET_WM_STATE".to_string(), 1),
        ("_NET_WM_STATE_STICKY".to_string(), 2),
        ("_NET_WM_WINDOW_TYPE".to_string(), 3),
    ];
    assert_eq!(window_state_change(&atoms).unwrap().values, vec![2]);
    assert!(window_type_change(&atoms).is_none());
    assert!(motif_change(&atoms).is_none());
    assert!(fullscreen_monitors_change(&atoms, 0).is_none());
    assert!(window_state_change(&vec![("_NET_WM_STATE".to_string(), 1)]).is_none());
}

#[test]
fn size_is_locked_to_the_geometry() {
    let hints = size_hints(&ScreenArea { x: -1280, y: 5, width: 1280, height: 720 });
    assert_eq!(
        hints,
        vec![
            1 | 2 | 16 | 32,
            (-1280i32) as u32,
            5,
            1280,
            720,
            1280,
            720,
            1280,
            720,
            0,
            0,
            0,
            0,
            0,
            0,
            0,
            0,
            0
        ]
    );
}

#[test]
fn monitor_is_found_by_geometry() {
    let monitors = vec![info(0, 0, 10, 10), info(10, 0, 10, 10), info(10, 0, 10, 10)];
    assert_eq!(monitor_index(&monitors, &info(10, 0, 10, 10)), 1);
    assert_eq!(monitor_index(&monitors, &info(10, 0, 10, 11)), 0);
    assert_eq!(monitor_index(&vec![], &info(0, 0, 1, 1)), 0);
}

#[test]
fn window_fills_its_monitor() {
    let a = window_area(&info(-1920, 1080, 1920, 1080));
    assert_eq!(a, ScreenArea { x: -1920, y: 1080, width: 1920, height: 1080 });
    let a = window_area(&info(40000, 0, 65537, 1));
    assert_eq!(a, ScreenArea { x: -25536, y: 0, width: 1, height: 1 });
}

#[test]
fn red_and_blue_are_exchanged() {
    let w = window();
    let rgba = frame(PixelFormat::Rgba32, vec![1, 2, 3, 4, 5, 6, 7, 8, 9, 10]);
    assert_eq!(w.render_frame(&rgba), Some(vec![3, 2, 1, 4, 7, 6, 5, 8]));
    let bgra = frame(PixelFormat::Bgra32, vec![1, 2, 3, 4, 5]);
    assert_eq!(w.render_frame(&bgra), Some(vec![1, 2, 3, 4, 5]));
    assert_eq!(w.render_frame(&frame(PixelFormat::Rgb24, vec![1])), None);
    assert_eq!(w.render_frame(&frame(PixelFormat::Bgr24, vec![1])), None);
    assert_eq!(WallpaperWindow::frame_size(&bgra), (1, 2));
}

#[test]
fn exchange_is_its_own_inverse() {
    let w = window();
    let once = w.render_frame(&frame(PixelFormat::Rgba32, (0..16).collect())).unwrap();
    let twice = w.render_frame(&frame(PixelFormat::Rgba32, once)).unwrap();
    assert_eq!(twice, (0..16).collect::<Vec<u8>>());
}

#[test]
fn graphics_context_is_kept() {
    let mut w = window();
    assert_eq!(w.graphics_context(), None);
    w.keep_graphics_context(77);
    assert_eq!(w.graphics_context(), Some(77));
    assert_eq!(w.screen_size(), (1920, 1080));
}

#[test]
fn icons_are_looked_after() {
    assert!(icons_shown(" true\n"));
    assert!(!icons_shown("false"));
    let mut w = window();
    assert_eq!(
        w.monitor_and_fix_icons(&b"true\n".to_vec(), 20 * SECOND),
        IconCare { show_icons: false, refresh: false }
    );
    assert_eq!(
        w.monitor_and_fix_icons(&b"false\n".to_vec(), 20 * SECOND),
        IconCare { show_icons: true, refresh: true }
    );
    assert_eq!(w.last_nemo_refresh(), 20 * SECOND);
    assert_eq!(
        w.monitor_and_fix_icons(&b"false\n".to_vec(), 21 * SECOND),
        IconCare { show_icons: true, refresh: false }
    );
    assert_eq!(w.last_nemo_refresh(), 20 * SECOND);
    let mut config = WindowConfig::default();
    config.enable_nemo_refresh = false;
    let mut w = WallpaperWindow::new(&config, &info(0, 0, 1, 1), 20 * SECOND);
    assert_eq!(
        w.monitor_and_fix_icons(&b"".to_vec(), 20 * SECOND),
        IconCare { show_icons: true, refresh: false }
    );
}

#[test]
fn refreshes_keep_their_distance() {
    let mut w = window();
    assert!(w.refresh_due(20 * SECOND));
    assert!(w.force_nemo_desktop_refresh(20 * SECOND));
    assert!(!w.refresh_due(20 * SECOND));
    assert!(!w.refresh_due(22 * SECOND - 1));
    assert!(w.refresh_due(22 * SECOND));
    assert!(!w.refresh_due(1));
}

#[test]
fn early_refreshes_push_nothing_back() {
    let mut w = window();
    assert!(w.force_nemo_desktop_refresh(20 * SECOND));
    assert!(!w.force_nemo_desktop_refresh(21 * SECOND));
    assert!(!w.force_nemo_desktop_refresh(22 * SECOND - 1));
    assert_eq!(w.last_nemo_refresh(), 20 * SECOND);
    assert!(w.force_nemo_desktop_refresh(22 * SECOND));
    assert_eq!(w.last_nemo_refresh(), 22 * SECOND);
}

#[test]
fn failed_refresh_does_not_count() {
    let mut w = window();
    let before = w.last_nemo_refresh();
    assert_eq!(before, 10 * SECOND);
    assert!(w.force_nemo_desktop_refresh(20 * SECOND));
    w.refresh_failed(before);
    assert!(w.force_nemo_desktop_refresh(20 * SECOND));
}

#[test]
fn nemo_desktop_windows() {
    let children = vec![
        (1, Some(b"nemo-desktop\0Nemo-desktop\0".to_vec())),
        (2, Some(b"nemo\0Nemo\0".to_vec())),
        (3, None),
        (4, Some(vec![0xff, b'n'])),
        (5, Some(b"x nemo-desktop".to_vec())),
    ];
    assert_eq!(nemo_windows(&children), vec![1, 5]);
    let mut broken = b"nemo-desktop".to_vec();
    broken.push(0xc3);
    assert_eq!(nemo_windows(&vec![(6, Some(broken))]), Vec::<u32>::new());
    assert_eq!(WM_CLASS.as_bytes().iter().filter(|b| **b == 0).count(), 2);
}
