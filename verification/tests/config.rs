use cinnamon_wallpaper::config::{
    CinnamonConfig, Config, ConfigError, ConfigFile, MonitorConfig, MonitorTable,
    PerformanceConfig, VideoConfig, WindowConfig, WriteOutcome, OPAQUE_BITS,
};

#[test]
fn default_settings() {
    let v = VideoConfig::default();
    assert!(v.hardware_acceleration && v.loop_playback && !v.audio_enabled);
    assert_eq!((v.scaling_quality, v.target_fps, v.max_buffer_frames), (8, 0, 3));
    let w = WindowConfig::default();
    assert!(w.below_all_windows && w.stick_to_all_desktops && w.override_decorations);
    assert!(w.enable_nemo_refresh);
    assert_eq!(w.nemo_refresh_interval_ms, 2000);
    assert_eq!(f32::from_bits(w.opacity_bits), 1.0);
    assert_eq!(OPAQUE_BITS, 1.0f32.to_bits());
    let p = PerformanceConfig::default();
    assert_eq!(p.gpu_vendor, "auto");
    assert_eq!(p.max_cache_memory_mb, 512);
    assert!(p.cpu_fallback && !p.frame_skipping && p.adaptive_quality);
    let c = CinnamonConfig::default();
    assert!(c.integrate_with_background_system && c.respect_desktop_icons);
    assert!(c.use_compositor_optimizations && !c.adapt_to_theme_changes);
    assert!(!c.preserve_native_wallpaper && c.use_solid_background_for_video);
    assert!(c.autostart_enabled && c.last_video_path.is_none() && c.last_monitor_index.is_none());
    assert!(c.monitors.is_empty());
    let m = MonitorConfig::default();
    assert_eq!(m.scaling_mode, "cover");
    assert!(m.video_path.is_none());
}

#[test]
fn config_file_place() {
    assert_eq!(
        Config::default_config_path(Some("/cfg"), Some("/home/ana")).unwrap(),
        "/cfg/cinnamon-wallpaper/config.toml"
    );
    assert_eq!(
        Config::default_config_path(None, Some("/home/ana")).unwrap(),
        "/home/ana/.config/cinnamon-wallpaper/config.toml"
    );
    assert_eq!(
        Config::default_config_path(None, None).unwrap_err().message(),
        "Could not determine config directory"
    );
    assert_eq!(Config::config_file(Some("my.toml"), None, None).unwrap(), "my.toml");
    assert_eq!(Config::config_file(None, None, None), Err(ConfigError::NoConfigDirectory));
    assert_eq!(
        Config::config_file(None, Some("/cfg"), None).unwrap(),
        "/cfg/cinnamon-wallpaper/config.toml"
    );
}

#[test]
fn loading_a_configuration() {
    let loaded = Config::load("/c.toml", ConfigFile::Absent).ok().unwrap();
    assert!(loaded.write_file);
    assert_eq!(loaded.config.video.scaling_quality, 8);
    let mut config = Config::default();
    config.video.target_fps = 25;
    let loaded = Config::load("/c.toml", ConfigFile::Parsed(config)).ok().unwrap();
    assert!(!loaded.write_file);
    assert_eq!(loaded.config.video.target_fps, 25);
    assert_eq!(
        Config::load("/c.toml", ConfigFile::Unreadable).err().unwrap().message(),
        "Failed to read config file: /c.toml"
    );
    assert_eq!(
        Config::load("/c.toml", ConfigFile::Unparsable).err().unwrap().message(),
        "Failed to parse config file: /c.toml"
    );
}

#[test]
fn saving_a_configuration() {
    assert_eq!(Config::directory("/cfg/app/config.toml"), Some("/cfg/app".to_string()));
    assert_eq!(Config::directory("/"), None);
    assert_eq!(Config::save("/c/f", "/c", WriteOutcome::Written), Ok(()));
    assert_eq!(
        Config::save("/c/f", "/c", WriteOutcome::NoDirectory).unwrap_err().message(),
        "Failed to create config directory: /c"
    );
    assert_eq!(
        Config::save("/c/f", "/c", WriteOutcome::NotSerialized).unwrap_err().message(),
        "Failed to serialize configuration"
    );
    assert_eq!(
        Config::save("/c/f", "/c", WriteOutcome::NotWritten).unwrap_err().message(),
        "Failed to write config file: /c/f"
    );
}

#[test]
fn video_is_set_for_one_monitor() {
    let mut config = Config::default();
    config.set_monitor_video(0, "/a.mp4");
    config.set_monitor_video(12, "/b.mp4");
    config.set_monitor_video(0, "/c.mp4");
    assert_eq!(config.monitor_video(0), Some("/c.mp4".to_string()));
    assert_eq!(config.monitor_video(12), Some("/b.mp4".to_string()));
    assert_eq!(config.monitor_video(1), None);
    assert_eq!(config.cinnamon.monitors.len(), 2);
    assert_eq!(config.cinnamon.monitors.entry(1).0, "12");
}

#[test]
fn scaling_mode_survives_a_new_video() {
    let mut table = MonitorTable::new();
    table.insert("3", MonitorConfig { video_path: None, scaling_mode: "contain".to_string() });
    table.set_video_path("3", "/v.webm");
    let m = table.get("3").unwrap();
    assert_eq!(m.scaling_mode, "contain");
    assert_eq!(m.video_path.as_deref(), Some("/v.webm"));
    assert!(table.get("03").is_none());
    let copy = table.clone();
    assert_eq!(copy.get("3").unwrap().scaling_mode, "contain");
    assert!(!table.is_empty());
}

#[test]
fn last_wallpaper_is_remembered() {
    let mut config = Config::default();
    config.remember_last("/v.mp4", 2);
    let copy = config.clone();
    assert_eq!(copy.cinnamon.last_video_path.as_deref(), Some("/v.mp4"));
    assert_eq!(copy.cinnamon.last_monitor_index, Some(2));
}

#[test]
fn walk_meets_every_key() {
    let mut config = Config::default();
    for (monitor, video) in [(3, "/c"), (0, "/a"), (3, "/d"), (11, "/k")] {
        config.set_monitor_video(monitor, video);
    }
    let table = &config.cinnamon.monitors;
    let mut met: Vec<(String, Option<String>)> = (0..table.len())
        .map(|i| table.entry(i))
        .map(|(key, settings)| (key.clone(), settings.video_path.clone()))
        .collect();
    met.sort();
    let wanted = [("0", "/a"), ("11", "/k"), ("3", "/d")];
    let wanted: Vec<(String, Option<String>)> =
        wanted.iter().map(|(k, v)| (k.to_string(), Some(v.to_string()))).collect();
    assert_eq!(met, wanted);
}
