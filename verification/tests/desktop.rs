use cinnamon_wallpaper::desktop::{
    is_active_output, is_cinnamon_wm, monitor_line, names_cinnamon, primary_index,
    CinnamonDesktop, MonitorInfo, ReportedMonitor, ReportedOutput, ScreenArea,
};
use cinnamon_wallpaper::gsettings_wallpaper::CinnamonWallpaperSettings;

fn area(x: i16, y: i16, width: u16, height: u16) -> ScreenArea {
    ScreenArea { x, y, width, height }
}

fn info(x: i32, y: i32, width: u32, height: u32, primary: bool) -> MonitorInfo {
    MonitorInfo { x, y, width, height, primary }
}

#[test]
fn session_names_cinnamon() {
    let d = CinnamonDesktop::new(Some("CINNAMON2d".to_string()), None);
    assert!(d.is_cinnamon_available(None, false));
    let d = CinnamonDesktop::new(None, Some("X-Cinnamon".to_string()));
    assert!(d.is_cinnamon_available(None, false));
    let d = CinnamonDesktop::new(Some("gnome".to_string()), Some("GNOME".to_string()));
    assert!(!d.is_cinnamon_available(None, false));
    assert!(d.is_cinnamon_available(Some("Mutter (Muffin)"), false));
    assert!(d.is_cinnamon_available(Some("mutter"), false));
    assert!(!d.is_cinnamon_available(Some("i3"), false));
    assert!(d.is_cinnamon_available(None, true));
}

#[test]
fn lowered_names() {
    assert!(names_cinnamon("x-cinnamon"));
    assert!(!names_cinnamon("Cinnamon"));
    assert!(is_cinnamon_wm("mutter"));
    assert!(!is_cinnamon_wm("muffin"));
}

#[test]
fn cinnamon_processes_are_searched() {
    assert_eq!(
        CinnamonDesktop::cinnamon_processes(),
        vec!["cinnamon".to_string(), "cinnamon-session".to_string(), "muffin".to_string()]
    );
    assert!(!CinnamonDesktop::is_cinnamon_process_running(&vec![None, Some(vec![])]));
    assert!(CinnamonDesktop::is_cinnamon_process_running(&vec![None, Some(vec![49, 10])]));
    assert!(!CinnamonDesktop::is_cinnamon_process_running(&vec![]));
}

#[test]
fn window_manager_properties() {
    assert_eq!(
        CinnamonDesktop::window_manager_window(&vec![0x78, 0x56, 0x34, 0x12, 9]),
        Some(0x1234_5678)
    );
    assert_eq!(CinnamonDesktop::window_manager_window(&vec![1, 2, 3]), None);
    assert_eq!(CinnamonDesktop::get_window_manager_name(Some(&b"Mutter".to_vec())), "Mutter");
    assert_eq!(
        CinnamonDesktop::get_window_manager_name(Some(&vec![0x4d, 0xff])),
        "M\u{fffd}"
    );
    assert_eq!(CinnamonDesktop::get_window_manager_name(Some(&vec![])), "Unknown");
    assert_eq!(CinnamonDesktop::get_window_manager_name(None), "Unknown");
}

#[test]
fn monitors_come_in_screen_order() {
    let reported = vec![
        ReportedMonitor { area: area(1920, 0, 1280, 1024), primary: true },
        ReportedMonitor { area: area(0, 1080, 800, 600), primary: false },
        ReportedMonitor { area: area(0, 0, 1920, 1080), primary: false },
    ];
    assert_eq!(
        CinnamonDesktop::get_monitors(&reported, &vec![]),
        vec![
            info(0, 0, 1920, 1080, false),
            info(0, 1080, 800, 600, false),
            info(1920, 0, 1280, 1024, true),
        ]
    );
}

#[test]
fn monitors_at_one_place_keep_their_order() {
    let reported = vec![
        ReportedMonitor { area: area(5, 0, 1, 1), primary: false },
        ReportedMonitor { area: area(-3, 0, 2, 2), primary: false },
        ReportedMonitor { area: area(-3, 0, 3, 3), primary: true },
        ReportedMonitor { area: area(-3, 0, 4, 4), primary: false },
    ];
    let monitors = CinnamonDesktop::get_monitors(&reported, &vec![]);
    let widths: Vec<u32> = monitors.iter().map(|m| m.width).collect();
    assert_eq!(widths, vec![2, 3, 4, 1]);
}

#[test]
fn outputs_stand_in_for_monitors() {
    let outputs = vec![
        ReportedOutput { connected: true, crtc: 7, area: area(1920, 0, 800, 600) },
        ReportedOutput { connected: true, crtc: 0, area: area(0, 0, 9, 9) },
        ReportedOutput { connected: false, crtc: 3, area: area(0, 0, 8, 8) },
        ReportedOutput { connected: true, crtc: 4, area: area(0, 0, 1920, 1080) },
    ];
    assert_eq!(
        CinnamonDesktop::get_monitors(&vec![], &outputs),
        vec![info(0, 0, 1920, 1080, false), info(1920, 0, 800, 600, true)]
    );
    assert_eq!(
        CinnamonDesktop::get_monitors_legacy(&outputs),
        vec![info(1920, 0, 800, 600, true), info(0, 0, 1920, 1080, false)]
    );
    let outputs_after_a_gap = vec![
        ReportedOutput { connected: false, crtc: 0, area: area(0, 0, 0, 0) },
        ReportedOutput { connected: true, crtc: 5, area: area(0, 0, 1920, 1080) },
        ReportedOutput { connected: true, crtc: 6, area: area(1920, 0, 1280, 1024) },
    ];
    assert_eq!(
        CinnamonDesktop::get_monitors_legacy(&outputs_after_a_gap),
        vec![info(0, 0, 1920, 1080, true), info(1920, 0, 1280, 1024, false)]
    );
    assert!(CinnamonDesktop::get_monitors_legacy(&vec![]).is_empty());
    let reported = vec![ReportedMonitor { area: area(1, 2, 3, 4), primary: false }];
    assert_eq!(
        CinnamonDesktop::get_monitors(&reported, &outputs),
        vec![info(1, 2, 3, 4, false)]
    );
    assert!(is_active_output(true, 1) && !is_active_output(true, 0));
}

#[test]
fn primary_monitor() {
    let monitors =
        vec![info(0, 0, 1, 1, false), info(1, 0, 1, 1, true), info(2, 0, 1, 1, true)];
    assert_eq!(primary_index(&monitors), 1);
    assert_eq!(primary_index(&vec![info(0, 0, 1, 1, false)]), 0);
    assert_eq!(primary_index(&vec![]), 0);
}

#[test]
fn monitor_lines() {
    assert_eq!(
        monitor_line(0, &info(0, 0, 1920, 1080, true)),
        "  0: 1920x1080+0+0 (primary)"
    );
    assert_eq!(monitor_line(12, &info(-1280, 56, 1280, 720, false)), "  12: 1280x720+-1280+56 ");
}

#[test]
fn native_settings_stay_untouched() {
    let s = CinnamonWallpaperSettings::new();
    assert_eq!(s.save_current_wallpaper(), Ok(()));
    assert_eq!(s.disable_native_wallpaper_with_solid(true), Ok(()));
    assert_eq!(s.disable_native_wallpaper_with_solid(false), Ok(()));
}
