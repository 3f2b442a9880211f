use cinnamon_wallpaper::cli::{
    target_monitor, video_not_found, Acquired, Args, Launch, RunMode,
};
use cinnamon_wallpaper::config::{Config, ConfigError};
use cinnamon_wallpaper::desktop::MonitorInfo;
use cinnamon_wallpaper::service::{request_video, RenderPace, Request, WallpaperService};

fn args() -> Args {
    Args {
        video_path: None,
        monitor: None,
        debug: false,
        config: None,
        list_monitors: false,
        desktop_info: false,
        daemon: false,
        stop: false,
        gui: false,
        restore_last: false,
    }
}

fn monitors(n: usize, primary: usize) -> Vec<MonitorInfo> {
    (0..n)
        .map(|i| MonitorInfo {
            x: 100 * i as i32,
            y: 0,
            width: 100,
            height: 100,
            primary: i == primary,
        })
        .collect()
}

fn starts(s: &WallpaperService<u8>, c: &Config, n: usize) -> Vec<(usize, String)> {
    s.update_wallpapers(c, &monitors(n, 0))
        .into_iter()
        .map(|s| (s.monitor, s.video_path))
        .collect()
}

#[test]
fn no_arguments_open_the_interface() {
    let a = args();
    assert_eq!(a.instance_suffix(), Some("gui"));
    assert_eq!(a.after_acquire(Acquired::Primary), Launch::Gui);
    assert_eq!(a.after_acquire(Acquired::Failed), Launch::Gui);
    assert_eq!(a.after_acquire(Acquired::Forwarded), Launch::Exit);
    assert_eq!(a.log_filter(), "info");
    assert!(!a.is_stop_command());
}

#[test]
fn video_runs_the_service() {
    let mut a = args();
    a.video_path = Some("/v.mp4".to_string());
    assert_eq!(a.instance_suffix(), None);
    assert_eq!(a.after_acquire(Acquired::Primary), Launch::Service);
    assert_eq!(a.run_mode(), RunMode::Wallpapers);
    a.gui = true;
    assert_eq!(a.instance_suffix(), Some("gui"));
    assert_eq!(a.after_acquire(Acquired::Primary), Launch::Gui);
}

#[test]
fn daemon_and_restore_run_the_service() {
    let mut a = args();
    a.daemon = true;
    assert_eq!(a.instance_suffix(), None);
    assert_eq!(a.after_acquire(Acquired::Primary), Launch::Service);
    let mut a = args();
    a.restore_last = true;
    assert_eq!(a.after_acquire(Acquired::Failed), Launch::Service);
}

#[test]
fn questions_come_before_the_interface() {
    let mut a = args();
    a.list_monitors = true;
    a.desktop_info = true;
    a.debug = true;
    assert_eq!(a.instance_suffix(), Some("gui"));
    assert_eq!(a.after_acquire(Acquired::Primary), Launch::Service);
    assert_eq!(a.run_mode(), RunMode::ListMonitors);
    a.list_monitors = false;
    assert_eq!(a.run_mode(), RunMode::DesktopInfo);
    assert_eq!(a.log_filter(), "debug");
}

#[test]
fn video_goes_to_the_primary_monitor() {
    assert_eq!(target_monitor(None, &monitors(3, 2)), 2);
    assert_eq!(target_monitor(Some(1), &monitors(3, 2)), 1);
    assert_eq!(target_monitor(Some(9), &monitors(1, 0)), 9);
    assert_eq!(target_monitor(None, &vec![]), 0);
    assert_eq!(video_not_found("/x"), "Video file not found: /x");
}

#[test]
fn wallpapers_start_where_none_runs() {
    let mut config = Config::default();
    config.set_monitor_video(0, "/a.mp4");
    config.set_monitor_video(2, "/c.mp4");
    config.set_monitor_video(5, "/far.mp4");
    let mut service: WallpaperService<u8> = WallpaperService::new();
    assert_eq!(
        starts(&service, &config, 3),
        vec![(0, "/a.mp4".to_string()), (2, "/c.mp4".to_string())]
    );
    service.started(0, 10);
    assert!(service.is_running(0) && !service.is_running(2));
    assert_eq!(starts(&service, &config, 3), vec![(2, "/c.mp4".to_string())]);
    service.started(2, 12);
    assert!(starts(&service, &config, 3).is_empty());
}

#[test]
fn request_restarts_only_its_monitor() {
    let mut config = Config::default();
    config.set_monitor_video(0, "/a.mp4");
    config.set_monitor_video(1, "/b.mp4");
    let mut service: WallpaperService<u8> = WallpaperService::new();
    service.started(0, 10);
    service.started(1, 11);
    let request =
        Request { video_path: Some("/new.mp4".to_string()), monitor: Some(1), stop: false };
    let demand = service.take_request(&mut config, &request, &monitors(2, 0));
    assert!(demand.changed);
    assert_eq!(demand.replaced, Some(11));
    assert_eq!(config.monitor_video(0), Some("/a.mp4".to_string()));
    assert_eq!(starts(&service, &config, 2), vec![(1, "/new.mp4".to_string())]);
}

#[test]
fn request_without_monitor_is_for_the_primary_one() {
    let mut config = Config::default();
    let mut service: WallpaperService<u8> = WallpaperService::new();
    let request = Request { video_path: Some("/new.mp4".to_string()), monitor: None, stop: false };
    let demand = service.take_request(&mut config, &request, &monitors(2, 1));
    assert_eq!(demand.replaced, None);
    assert_eq!(config.monitor_video(1), Some("/new.mp4".to_string()));
    assert_eq!(config.monitor_video(0), None);
}

#[test]
fn request_without_video_changes_nothing() {
    let mut config = Config::default();
    let mut service: WallpaperService<u8> = WallpaperService::new();
    service.started(0, 10);
    let request = Request { video_path: None, monitor: Some(0), stop: true };
    let demand = service.take_request(&mut config, &request, &monitors(1, 0));
    assert!(!demand.changed && demand.replaced.is_none());
    assert!(service.is_running(0));
    assert!(config.cinnamon.monitors.is_empty());
}

#[test]
fn stop_gives_up_every_task() {
    let mut service: WallpaperService<u8> = WallpaperService::new();
    service.started(0, 10);
    service.started(4, 14);
    let handles = service.stop_all();
    assert_eq!(handles.len(), 2);
    assert_eq!(handles[&4], 14);
    assert!(!service.is_running(0) && !service.is_running(4));
}

#[test]
fn stop_request_ends_the_service() {
    let mut service: WallpaperService<u8> = WallpaperService::new();
    service.started(0, 10);
    service.started(4, 14);
    let go_on = Request { video_path: None, monitor: None, stop: false };
    assert!(service.take_stop(&go_on).is_none());
    assert!(service.is_running(0) && service.is_running(4));
    let stop = Request { video_path: None, monitor: None, stop: true };
    let handles = service.take_stop(&stop).unwrap();
    assert_eq!((handles.len(), handles[&0], handles[&4]), (2, 10, 14));
    assert!(!service.is_running(0) && !service.is_running(4));
}

#[test]
fn missing_video_is_refused_before_anything_changes() {
    let mut config = Config::default();
    config.set_monitor_video(1, "/old.mp4");
    let full = || Some("/v/a.mp4".to_string());
    assert_eq!(
        request_video(&mut config, "a.mp4", false, full(), Some(1), &monitors(2, 0)),
        Err("Video file not found: a.mp4".to_string())
    );
    let refused = request_video(&mut config, "a.mp4", true, None, Some(1), &monitors(2, 0));
    assert_eq!(refused, Err(ConfigError::SerializeFailed.message()));
    assert_eq!(config.monitor_video(1), Some("/old.mp4".to_string()));
    assert_eq!(config.monitor_video(0), None);
    assert_eq!(request_video(&mut config, "a.mp4", true, full(), None, &monitors(2, 1)), Ok(1));
    assert_eq!(config.monitor_video(1), Some("/v/a.mp4".to_string()));
    assert_eq!(request_video(&mut config, "a.mp4", true, full(), Some(7), &monitors(2, 1)), Ok(7));
    assert_eq!(config.monitor_video(7), Some("/v/a.mp4".to_string()));
    assert_eq!(config.monitor_video(0), None);
}

#[test]
fn icons_are_checked_every_so_many_frames() {
    let mut pace = RenderPace::new();
    let mut checks = Vec::new();
    for frame in 1..=300 {
        if pace.frame_shown() {
            checks.push(frame);
        }
    }
    assert_eq!(checks, vec![120, 240]);
    pace.restarted();
    for _ in 0..119 {
        assert!(!pace.frame_shown());
    }
    assert!(pace.frame_shown());
}
