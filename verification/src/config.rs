//! Configuration: the settings, their defaults, where the file lives, and the
//! per-monitor table.

use crate::paths::{components, has_parent, join_path, joined, path_parent};
use crate::text::{decimal, decimal_text, law_decimal_injective, opt_str, opt_text, same_text};
use vstd::prelude::*;
use vstd::string::*;

verus! {

/// Video playback configuration.
#[derive(Debug, Clone, Copy)]
pub struct VideoConfig {
    /// Enable hardware acceleration.
    pub hardware_acceleration: bool,
    /// Loop video playback.
    pub loop_playback: bool,
    /// Video scaling quality (1-10, 10 = highest).
    pub scaling_quality: u8,
    /// Target FPS (0 = use the video's native FPS).
    pub target_fps: u32,
    /// Audio enabled (usually false for wallpapers).
    pub audio_enabled: bool,
    /// Maximum number of frames to buffer in the sink. A small number (1-5)
    /// gives low latency, a higher one smooths playback.
    pub max_buffer_frames: u32,
}

/// The default video settings.
pub open spec fn default_video() -> VideoConfig {
    VideoConfig {
        hardware_acceleration: true,
        loop_playback: true,
        scaling_quality: 8,
        target_fps: 0,
        audio_enabled: false,
        max_buffer_frames: 3,
    }
}

impl Default for VideoConfig {
    fn default() -> (c: Self)
        ensures
            c == default_video(),
    {
        VideoConfig {
            hardware_acceleration: true,
            loop_playback: true,
            scaling_quality: 8,
            target_fps: 0,
            audio_enabled: false,
            max_buffer_frames: 3,
        }
    }
}

/// The bit pattern of the opacity 1.0.
pub const OPAQUE_BITS: u32 = 0x3f80_0000;

/// Window management configuration.
#[derive(Debug, Clone, Copy)]
pub struct WindowConfig {
    /// Keep the wallpaper below all windows.
    pub below_all_windows: bool,
    /// Stick to all desktops and workspaces.
    pub stick_to_all_desktops: bool,
    /// Override window manager decorations.
    pub override_decorations: bool,
    /// Window opacity (0.0-1.0), as the bit pattern of a single precision number.
    pub opacity_bits: u32,
    /// Allow a forced refresh of the Nemo desktop windows.
    pub enable_nemo_refresh: bool,
    /// Minimum interval between Nemo refreshes in milliseconds.
    pub nemo_refresh_interval_ms: u32,
}

/// The default window settings.
pub open spec fn default_window() -> WindowConfig {
    WindowConfig {
        below_all_windows: true,
        stick_to_all_desktops: true,
        override_decorations: true,
        opacity_bits: OPAQUE_BITS,
        enable_nemo_refresh: true,
        nemo_refresh_interval_ms: 2000,
    }
}

impl Default for WindowConfig {
    fn default() -> (c: Self)
        ensures
            c == default_window(),
    {
        WindowConfig {
            below_all_windows: true,
            stick_to_all_desktops: true,
            override_decorations: true,
            opacity_bits: OPAQUE_BITS,
            enable_nemo_refresh: true,
            nemo_refresh_interval_ms: 2000,
        }
    }
}

/// Performance optimization configuration.
#[derive(Debug)]
pub struct PerformanceConfig {
    /// Preferred GPU vendor (nvidia, amd, intel, auto).
    pub gpu_vendor: String,
    /// Enable CPU fallback if the GPU fails.
    pub cpu_fallback: bool,
    /// Maximum memory usage for the video cache (MB).
    pub max_cache_memory_mb: u32,
    /// Enable frame skipping on slow systems.
    pub frame_skipping: bool,
    /// Reduce quality when the system is under load.
    pub adaptive_quality: bool,
}

/// What a performance configuration says.
pub struct PerformanceView {
    pub gpu_vendor: Seq<char>,
    pub cpu_fallback: bool,
    pub max_cache_memory_mb: u32,
    pub frame_skipping: bool,
    pub adaptive_quality: bool,
}

impl View for PerformanceConfig {
    type V = PerformanceView;

    open spec fn view(&self) -> PerformanceView {
        PerformanceView {
            gpu_vendor: self.gpu_vendor@,
            cpu_fallback: self.cpu_fallback,
            max_cache_memory_mb: self.max_cache_memory_mb,
            frame_skipping: self.frame_skipping,
            adaptive_quality: self.adaptive_quality,
        }
    }
}

/// The default performance settings.
pub open spec fn default_performance() -> PerformanceView {
    PerformanceView {
        gpu_vendor: "auto"@,
        cpu_fallback: true,
        max_cache_memory_mb: 512,
        frame_skipping: false,
        adaptive_quality: true,
    }
}

impl Default for PerformanceConfig {
    fn default() -> (c: Self)
        ensures
            c@ == default_performance(),
    {
        PerformanceConfig {
            gpu_vendor: "auto".to_owned(),
            cpu_fallback: true,
            max_cache_memory_mb: 512,
            frame_skipping: false,
            adaptive_quality: true,
        }
    }
}

impl Clone for PerformanceConfig {
    fn clone(&self) -> (c: Self)
        ensures
            c@ == self@,
    {
        PerformanceConfig {
            gpu_vendor: self.gpu_vendor.clone(),
            cpu_fallback: self.cpu_fallback,
            max_cache_memory_mb: self.max_cache_memory_mb,
            frame_skipping: self.frame_skipping,
            adaptive_quality: self.adaptive_quality,
        }
    }
}

/// Configuration of one monitor.
#[derive(Debug)]
pub struct MonitorConfig {
    /// Path to the video file for this monitor.
    pub video_path: Option<String>,
    /// Scaling mode (cover, contain, etc.).
    pub scaling_mode: String,
}

/// What a monitor configuration says.
pub struct MonitorView {
    pub video_path: Option<Seq<char>>,
    pub scaling_mode: Seq<char>,
}

impl View for MonitorConfig {
    type V = MonitorView;

    open spec fn view(&self) -> MonitorView {
        MonitorView { video_path: opt_text(self.video_path), scaling_mode: self.scaling_mode@ }
    }
}

/// What is assumed of a monitor that has no configuration yet.
pub open spec fn default_monitor() -> MonitorView {
    MonitorView { video_path: None, scaling_mode: "cover"@ }
}

impl Default for MonitorConfig {
    fn default() -> (c: Self)
        ensures
            c@ == default_monitor(),
    {
        MonitorConfig { video_path: None, scaling_mode: "cover".to_owned() }
    }
}

impl Clone for MonitorConfig {
    fn clone(&self) -> (c: Self)
        ensures
            c == *self,
    {
        MonitorConfig {
            video_path: clone_opt(&self.video_path),
            scaling_mode: self.scaling_mode.clone(),
        }
    }
}

fn clone_opt(o: &Option<String>) -> (c: Option<String>)
    ensures
        c == *o,
{
    match o {
        Some(s) => Some(s.clone()),
        None => None,
    }
}

/// No two entries have the same key.
pub open spec fn keys_distinct(entries: Seq<(String, MonitorConfig)>) -> bool {
    forall|i: int, j: int|
        0 <= i < j < entries.len() ==> (#[trigger] entries[i]).0@ != (#[trigger] entries[j]).0@
}

/// `key` is the key of entry `i`.
pub open spec fn is_entry(entries: Seq<(String, MonitorConfig)>, key: Seq<char>, i: int) -> bool {
    0 <= i < entries.len() && entries[i].0@ == key
}

/// What the entries assign to each key.
pub open spec fn entries_map(entries: Seq<(String, MonitorConfig)>) -> Map<Seq<char>, MonitorView> {
    Map::new(
        |key: Seq<char>| exists|i: int| is_entry(entries, key, i),
        |key: Seq<char>| entries[choose|i: int| is_entry(entries, key, i)].1@,
    )
}

/// Per-monitor configuration: the monitor index as text, and its settings.
#[derive(Debug)]
pub struct MonitorTable {
    entries: Vec<(String, MonitorConfig)>,
}

impl View for MonitorTable {
    type V = Map<Seq<char>, MonitorView>;

    closed spec fn view(&self) -> Map<Seq<char>, MonitorView> {
        entries_map(self.entries@)
    }
}

proof fn lemma_entry(entries: Seq<(String, MonitorConfig)>, i: int)
    requires
        keys_distinct(entries),
        0 <= i < entries.len(),
    ensures
        entries_map(entries).dom().contains(entries[i].0@),
        entries_map(entries)[entries[i].0@] == entries[i].1@,
{
    let key = entries[i].0@;
    assert(is_entry(entries, key, i));
    let j = choose|j: int| is_entry(entries, key, j);
    assert(is_entry(entries, key, j));
    if j != i {
        assert(entries[if i < j { i } else { j }].0@ != entries[if i < j { j } else { i }].0@);
    }
}

/// Walking the entries meets every key of the table, each exactly once and with its
/// settings.
pub proof fn law_walk_meets_every_key(entries: Seq<(String, MonitorConfig)>, key: Seq<char>)
    requires
        keys_distinct(entries),
    ensures
        entries_map(entries).dom().contains(key) <==> exists|i: int| is_entry(entries, key, i),
        forall|i: int| #[trigger]
            is_entry(entries, key, i) ==> entries_map(entries)[key] == entries[i].1@,
        forall|i: int, j: int|
            is_entry(entries, key, i) && is_entry(entries, key, j) ==> i == j,
{
    assert forall|i: int| #[trigger] is_entry(entries, key, i) implies entries_map(entries)[key]
        == entries[i].1@ by {
        lemma_entry(entries, i);
    }
    assert forall|i: int, j: int|
        is_entry(entries, key, i) && is_entry(entries, key, j) implies i == j by {
        if i != j {
            assert(entries[if i < j { i } else { j }].0@ != entries[if i < j { j } else { i }].0@);
        }
    }
}

impl MonitorTable {
    #[verifier::type_invariant]
    spec fn well_formed(&self) -> bool {
        keys_distinct(self.entries@)
    }

    /// The entries in the order in which their keys came.
    pub closed spec fn sequence(&self) -> Seq<(String, MonitorConfig)> {
        self.entries@
    }

    /// A table with no entry.
    pub fn new() -> (t: Self)
        ensures
            t@ == Map::<Seq<char>, MonitorView>::empty(),
            t.sequence() == Seq::<(String, MonitorConfig)>::empty(),
    {
        let t = MonitorTable { entries: Vec::new() };
        assert(t@ =~= Map::<Seq<char>, MonitorView>::empty());
        t
    }

    /// The number of entries. The entries are the whole table: each key stands in exactly
    /// one of them.
    pub fn len(&self) -> (n: usize)
        ensures
            n == self.sequence().len(),
            entries_map(self.sequence()) == self@,
            keys_distinct(self.sequence()),
    {
        proof {
            use_type_invariant(self);
        }
        self.entries.len()
    }

    /// Whether the table has no entry.
    pub fn is_empty(&self) -> (r: bool)
        ensures
            r == (self@ == Map::<Seq<char>, MonitorView>::empty()),
    {
        proof {
            use_type_invariant(self);
            if self.entries@.len() > 0 {
                lemma_entry(self.entries@, 0);
                assert(!Map::<Seq<char>, MonitorView>::empty().dom().contains(self.entries@[0].0@));
            } else {
                assert(self@ =~= Map::<Seq<char>, MonitorView>::empty());
            }
        }
        self.entries.len() == 0
    }

    /// The key and the settings of entry `i`.
    pub fn entry(&self, i: usize) -> (e: (&String, &MonitorConfig))
        requires
            i < self.sequence().len(),
        ensures
            *e.0 == self.sequence()[i as int].0,
            *e.1 == self.sequence()[i as int].1,
            self@.dom().contains(e.0@),
            self@[e.0@] == e.1@,
    {
        proof {
            use_type_invariant(self);
            lemma_entry(self.entries@, i as int);
        }
        let e = &self.entries[i];
        (&e.0, &e.1)
    }

    fn position(&self, key: &str) -> (found: Option<usize>)
        ensures
            found matches Some(i) ==> is_entry(self.entries@, key@, i as int),
            found is None ==> !self@.dom().contains(key@),
    {
        for i in 0..self.entries.len()
            invariant
                forall|j: int| 0 <= j < i ==> !is_entry(self.entries@, key@, j),
        {
            if same_text(self.entries[i].0.as_str(), key) {
                return Some(i);
            }
        }
        None
    }

    /// The settings under `key`.
    pub fn get(&self, key: &str) -> (found: Option<&MonitorConfig>)
        ensures
            found is Some <==> self@.dom().contains(key@),
            found matches Some(c) ==> c@ == self@[key@],
    {
        proof {
            use_type_invariant(self);
        }
        match self.position(key) {
            Some(i) => {
                proof {
                    lemma_entry(self.entries@, i as int);
                }
                Some(&self.entries[i].1)
            },
            None => None,
        }
    }

    /// Puts `settings` under `key`, in place of what was there.
    pub fn insert(&mut self, key: &str, settings: MonitorConfig)
        ensures
            final(self)@ == old(self)@.insert(key@, settings@),
    {
        proof {
            use_type_invariant(&*self);
        }
        let found = self.position(key);
        let mut entries: Vec<(String, MonitorConfig)> = Vec::new();
        std::mem::swap(&mut entries, &mut self.entries);
        let ghost before = entries@;
        match found {
            Some(i) => {
                entries.set(i, (key.to_owned(), settings));
                assert(keys_distinct(entries@)) by {
                    assert forall|a: int, b: int| 0 <= a < b < entries@.len() implies (
                    #[trigger] entries@[a]).0@ != (#[trigger] entries@[b]).0@ by {
                        assert(before[a].0@ != before[b].0@);
                    }
                }
                proof {
                    assert forall|k: Seq<char>| #[trigger]
                        entries_map(entries@).dom().contains(k) <==> entries_map(before).insert(
                            key@,
                            settings@,
                        ).dom().contains(k) by {
                        if exists|j: int| is_entry(entries@, k, j) {
                            let j = choose|j: int| is_entry(entries@, k, j);
                            assert(is_entry(before, k, j));
                        }
                        if exists|j: int| is_entry(before, k, j) {
                            let j = choose|j: int| is_entry(before, k, j);
                            assert(is_entry(entries@, k, j));
                        }
                    }
                    assert forall|k: Seq<char>| #[trigger]
                        entries_map(entries@).dom().contains(k) implies entries_map(entries@)[k]
                        == entries_map(before).insert(key@, settings@)[k] by {
                        let j = choose|j: int| is_entry(entries@, k, j);
                        lemma_entry(entries@, j);
                        if k != key@ {
                            assert(is_entry(before, k, j));
                            lemma_entry(before, j);
                            assert(j != i);
                        } else {
                            lemma_entry(entries@, i as int);
                        }
                    }
                }
            },
            None => {
                entries.push((key.to_owned(), settings));
                assert(keys_distinct(entries@)) by {
                    assert forall|a: int, b: int| 0 <= a < b < entries@.len() implies (
                    #[trigger] entries@[a]).0@ != (#[trigger] entries@[b]).0@ by {
                        if b < before.len() {
                            assert(before[a].0@ != before[b].0@);
                        } else if before[a].0@ == key@ {
                            assert(is_entry(before, key@, a));
                        }
                    }
                }
                proof {
                    let last = before.len() as int;
                    assert(is_entry(entries@, key@, last));
                    assert forall|k: Seq<char>| #[trigger]
                        entries_map(entries@).dom().contains(k) <==> entries_map(before).insert(
                            key@,
                            settings@,
                        ).dom().contains(k) by {
                        if exists|j: int| is_entry(entries@, k, j) {
                            let j = choose|j: int| is_entry(entries@, k, j);
                            assert(is_entry(before, k, j) || j == last);
                        }
                        if exists|j: int| is_entry(before, k, j) {
                            let j = choose|j: int| is_entry(before, k, j);
                            assert(is_entry(entries@, k, j));
                        }
                    }
                    assert forall|k: Seq<char>| #[trigger]
                        entries_map(entries@).dom().contains(k) implies entries_map(entries@)[k]
                        == entries_map(before).insert(key@, settings@)[k] by {
                        let j = choose|j: int| is_entry(entries@, k, j);
                        lemma_entry(entries@, j);
                        if k != key@ {
                            assert(is_entry(before, k, j));
                            lemma_entry(before, j);
                        } else {
                            lemma_entry(entries@, last);
                        }
                    }
                }
            },
        }
        assert(entries_map(entries@) =~= entries_map(before).insert(key@, settings@));
        self.entries = entries;
    }

    /// Sets the video under `key`. An entry that is not there yet is made with
    /// the default settings; the scaling mode of one that is there stays.
    pub fn set_video_path(&mut self, key: &str, video_path: &str)
        ensures
            final(self)@ == with_video(old(self)@, key@, video_path@),
    {
        let scaling_mode = match self.get(key) {
            Some(settings) => settings.scaling_mode.clone(),
            None => MonitorConfig::default().scaling_mode,
        };
        self.insert(key, MonitorConfig { video_path: Some(video_path.to_owned()), scaling_mode });
    }
}

impl Clone for MonitorTable {
    fn clone(&self) -> (t: Self)
        ensures
            t@ == self@,
            t.sequence() == self.sequence(),
    {
        proof {
            use_type_invariant(self);
        }
        let mut entries: Vec<(String, MonitorConfig)> = Vec::new();
        for i in 0..self.entries.len()
            invariant
                entries@ == self.entries@.take(i as int),
        {
            entries.push((self.entries[i].0.clone(), self.entries[i].1.clone()));
            assert(entries@ =~= self.entries@.take(i + 1));
        }
        assert(entries@ =~= self.entries@);
        MonitorTable { entries }
    }
}

/// The table `t` with the video of `key` set.
pub open spec fn with_video(
    t: Map<Seq<char>, MonitorView>,
    key: Seq<char>,
    video_path: Seq<char>,
) -> Map<Seq<char>, MonitorView> {
    let settings = if t.dom().contains(key) {
        t[key]
    } else {
        default_monitor()
    };
    t.insert(key, MonitorView { video_path: Some(video_path), ..settings })
}

/// The video that the table gives for a monitor.
pub open spec fn table_video(t: Map<Seq<char>, MonitorView>, monitor: nat) -> Option<Seq<char>> {
    if t.dom().contains(decimal(monitor)) {
        t[decimal(monitor)].video_path
    } else {
        None
    }
}

/// Cinnamon-specific configuration.
#[derive(Debug)]
pub struct CinnamonConfig {
    /// Integrate with Cinnamon's background system.
    pub integrate_with_background_system: bool,
    /// Respect Cinnamon's desktop icons.
    pub respect_desktop_icons: bool,
    /// Use Cinnamon's compositor optimizations.
    pub use_compositor_optimizations: bool,
    /// Automatically adapt to theme changes.
    pub adapt_to_theme_changes: bool,
    /// If true, do not modify Cinnamon's native wallpaper keys (safe mode).
    pub preserve_native_wallpaper: bool,
    /// If true, applying a video sets Cinnamon to a solid background color.
    pub use_solid_background_for_video: bool,
    /// Enable autostart of the wallpaper on system startup.
    pub autostart_enabled: bool,
    /// Path to the last applied video wallpaper.
    pub last_video_path: Option<String>,
    /// Monitor index for the last applied wallpaper.
    pub last_monitor_index: Option<usize>,
    /// Per-monitor configuration (monitor index as text, and settings).
    pub monitors: MonitorTable,
}

/// What a Cinnamon configuration says.
pub struct CinnamonView {
    pub integrate_with_background_system: bool,
    pub respect_desktop_icons: bool,
    pub use_compositor_optimizations: bool,
    pub adapt_to_theme_changes: bool,
    pub preserve_native_wallpaper: bool,
    pub use_solid_background_for_video: bool,
    pub autostart_enabled: bool,
    pub last_video_path: Option<Seq<char>>,
    pub last_monitor_index: Option<usize>,
    pub monitors: Map<Seq<char>, MonitorView>,
}

impl View for CinnamonConfig {
    type V = CinnamonView;

    open spec fn view(&self) -> CinnamonView {
        CinnamonView {
            integrate_with_background_system: self.integrate_with_background_system,
            respect_desktop_icons: self.respect_desktop_icons,
            use_compositor_optimizations: self.use_compositor_optimizations,
            adapt_to_theme_changes: self.adapt_to_theme_changes,
            preserve_native_wallpaper: self.preserve_native_wallpaper,
            use_solid_background_for_video: self.use_solid_background_for_video,
            autostart_enabled: self.autostart_enabled,
            last_video_path: opt_text(self.last_video_path),
            last_monitor_index: self.last_monitor_index,
            monitors: self.monitors@,
        }
    }
}

/// The default Cinnamon settings.
pub open spec fn default_cinnamon() -> CinnamonView {
    CinnamonView {
        integrate_with_background_system: true,
        respect_desktop_icons: true,
        use_compositor_optimizations: true,
        adapt_to_theme_changes: false,
        preserve_native_wallpaper: false,
        use_solid_background_for_video: true,
        autostart_enabled: true,
        last_video_path: None,
        last_monitor_index: None,
        monitors: Map::empty(),
    }
}

impl Default for CinnamonConfig {
    fn default() -> (c: Self)
        ensures
            c@ == default_cinnamon(),
    {
        CinnamonConfig {
            integrate_with_background_system: true,
            respect_desktop_icons: true,
            use_compositor_optimizations: true,
            adapt_to_theme_changes: false,
            preserve_native_wallpaper: false,
            use_solid_background_for_video: true,
            autostart_enabled: true,
            last_video_path: None,
            last_monitor_index: None,
            monitors: MonitorTable::new(),
        }
    }
}

impl Clone for CinnamonConfig {
    fn clone(&self) -> (c: Self)
        ensures
            c@ == self@,
    {
        CinnamonConfig {
            integrate_with_background_system: self.integrate_with_background_system,
            respect_desktop_icons: self.respect_desktop_icons,
            use_compositor_optimizations: self.use_compositor_optimizations,
            adapt_to_theme_changes: self.adapt_to_theme_changes,
            preserve_native_wallpaper: self.preserve_native_wallpaper,
            use_solid_background_for_video: self.use_solid_background_for_video,
            autostart_enabled: self.autostart_enabled,
            last_video_path: clone_opt(&self.last_video_path),
            last_monitor_index: self.last_monitor_index,
            monitors: self.monitors.clone(),
        }
    }
}

/// Main configuration structure.
#[derive(Debug)]
pub struct Config {
    /// Video playback settings.
    pub video: VideoConfig,
    /// Window management settings.
    pub window: WindowConfig,
    /// Performance optimization settings.
    pub performance: PerformanceConfig,
    /// Cinnamon-specific settings.
    pub cinnamon: CinnamonConfig,
}

/// What a configuration says.
pub struct ConfigView {
    pub video: VideoConfig,
    pub window: WindowConfig,
    pub performance: PerformanceView,
    pub cinnamon: CinnamonView,
}

impl View for Config {
    type V = ConfigView;

    open spec fn view(&self) -> ConfigView {
        ConfigView {
            video: self.video,
            window: self.window,
            performance: self.performance@,
            cinnamon: self.cinnamon@,
        }
    }
}

/// The default configuration.
pub open spec fn default_config() -> ConfigView {
    ConfigView {
        video: default_video(),
        window: default_window(),
        performance: default_performance(),
        cinnamon: default_cinnamon(),
    }
}

impl Default for Config {
    fn default() -> (c: Self)
        ensures
            c@ == default_config(),
    {
        Config {
            video: VideoConfig::default(),
            window: WindowConfig::default(),
            performance: PerformanceConfig::default(),
            cinnamon: CinnamonConfig::default(),
        }
    }
}

impl Clone for Config {
    fn clone(&self) -> (c: Self)
        ensures
            c@ == self@,
    {
        Config {
            video: self.video,
            window: self.window,
            performance: self.performance.clone(),
            cinnamon: self.cinnamon.clone(),
        }
    }
}

/// Why a configuration could not be had or kept.
#[derive(Debug, PartialEq)]
pub enum ConfigError {
    /// Neither the configuration directory nor the home directory is known.
    NoConfigDirectory,
    /// The file is there and cannot be read.
    ReadFailed(String),
    /// The file's text is no configuration.
    ParseFailed(String),
    /// The directory of the file cannot be made.
    DirectoryFailed(String),
    /// The configuration has no textual form.
    SerializeFailed,
    /// The file cannot be written.
    WriteFailed(String),
}

/// The message for an error.
pub open spec fn config_error_text(e: ConfigError) -> Seq<char> {
    match e {
        ConfigError::NoConfigDirectory => "Could not determine config directory"@,
        ConfigError::ReadFailed(path) => "Failed to read config file: "@ + path@,
        ConfigError::ParseFailed(path) => "Failed to parse config file: "@ + path@,
        ConfigError::DirectoryFailed(path) => "Failed to create config directory: "@ + path@,
        ConfigError::SerializeFailed => "Failed to serialize configuration"@,
        ConfigError::WriteFailed(path) => "Failed to write config file: "@ + path@,
    }
}

impl ConfigError {
    /// The message to show for this error.
    pub fn message(&self) -> (text: String)
        ensures
            text@ == config_error_text(*self),
    {
        match self {
            ConfigError::NoConfigDirectory => "Could not determine config directory".to_owned(),
            ConfigError::ReadFailed(path) => "Failed to read config file: ".to_owned().concat(path.as_str()),
            ConfigError::ParseFailed(path) => "Failed to parse config file: ".to_owned().concat(path.as_str()),
            ConfigError::DirectoryFailed(path) =>
                "Failed to create config directory: ".to_owned().concat(path.as_str()),
            ConfigError::SerializeFailed => "Failed to serialize configuration".to_owned(),
            ConfigError::WriteFailed(path) => "Failed to write config file: ".to_owned().concat(path.as_str()),
        }
    }
}

/// What was found where the configuration file should be.
pub enum ConfigFile {
    /// No file.
    Absent,
    /// A file that cannot be read.
    Unreadable,
    /// A file whose text is no configuration.
    Unparsable,
    /// A configuration.
    Parsed(Config),
}

/// How writing a configuration went.
#[derive(Debug, Clone, Copy, PartialEq, Eq, Structural)]
pub enum WriteOutcome {
    /// The directory of the file could not be made.
    NoDirectory,
    /// The configuration has no textual form.
    NotSerialized,
    /// The file could not be written.
    NotWritten,
    /// The file holds the configuration.
    Written,
}

/// A configuration to run with.
pub struct LoadedConfig {
    pub config: Config,
    /// The file is not there yet: its directory is to be made and `config`
    /// written to it.
    pub write_file: bool,
}

/// The standard place of the configuration file.
pub open spec fn config_path_in(
    xdg_config_home: Option<Seq<char>>,
    home: Option<Seq<char>>,
) -> Option<Seq<char>> {
    let dir = match (xdg_config_home, home) {
        (Some(xdg), _) => Some(xdg),
        (None, Some(h)) => Some(joined(h, ".config"@)),
        (None, None) => None,
    };
    match dir {
        Some(d) => Some(joined(joined(d, "cinnamon-wallpaper"@), "config.toml"@)),
        None => None,
    }
}

/// `c` with the video of one monitor set.
pub open spec fn config_with_video(c: ConfigView, monitor: nat, video_path: Seq<char>) -> ConfigView {
    ConfigView {
        cinnamon: CinnamonView {
            monitors: with_video(c.cinnamon.monitors, decimal(monitor), video_path),
            ..c.cinnamon
        },
        ..c
    }
}

/// The configuration file has its fixed name in the program's directory: in the configuration
/// directory when one is given, whatever the home directory is, otherwise in the usual one
/// under the home directory. Without either there is no place for it.
pub proof fn law_config_file_has_its_place(xdg: Seq<char>, home: Option<Seq<char>>)
    ensures
        config_path_in(Some(xdg), home) == Some(
            joined(joined(xdg, "cinnamon-wallpaper"@), "config.toml"@),
        ),
        home matches Some(h) ==> config_path_in(None, home) == Some(
            joined(joined(joined(h, ".config"@), "cinnamon-wallpaper"@), "config.toml"@),
        ),
        config_path_in(None, None) is None,
{
}

/// Setting the video of a monitor changes nothing else: neither the settings of other monitors,
/// nor the scaling mode of this one, which is `cover` for a monitor that had no settings, nor
/// anything outside the table.
pub proof fn law_only_the_video_changes(
    c: ConfigView,
    monitor: nat,
    video: Seq<char>,
    key: Seq<char>,
)
    ensures
        ({
            let after = config_with_video(c, monitor, video);
            let table = c.cinnamon.monitors;
            let changed = after.cinnamon.monitors;
            &&& after.video == c.video
            &&& after.window == c.window
            &&& after.performance == c.performance
            &&& after.cinnamon.last_video_path == c.cinnamon.last_video_path
            &&& after.cinnamon.last_monitor_index == c.cinnamon.last_monitor_index
            &&& after.cinnamon.integrate_with_background_system
                == c.cinnamon.integrate_with_background_system
            &&& after.cinnamon.respect_desktop_icons == c.cinnamon.respect_desktop_icons
            &&& after.cinnamon.use_compositor_optimizations
                == c.cinnamon.use_compositor_optimizations
            &&& after.cinnamon.adapt_to_theme_changes == c.cinnamon.adapt_to_theme_changes
            &&& after.cinnamon.preserve_native_wallpaper == c.cinnamon.preserve_native_wallpaper
            &&& after.cinnamon.use_solid_background_for_video
                == c.cinnamon.use_solid_background_for_video
            &&& after.cinnamon.autostart_enabled == c.cinnamon.autostart_enabled
            &&& changed.dom().contains(decimal(monitor))
            &&& changed[decimal(monitor)].video_path == Some(video)
            &&& changed[decimal(monitor)].scaling_mode == if table.dom().contains(
                decimal(monitor),
            ) {
                table[decimal(monitor)].scaling_mode
            } else {
                "cover"@
            }
            &&& key != decimal(monitor) ==> (changed.dom().contains(key) <==> table.dom().contains(
                key,
            ))
            &&& key != decimal(monitor) && table.dom().contains(key) ==> changed[key] == table[key]
        }),
{
}

/// The video of one entry is set without touching any other entry or its scaling mode.
pub proof fn law_only_one_entry_changes(
    t: Map<Seq<char>, MonitorView>,
    key: Seq<char>,
    video: Seq<char>,
    other: Seq<char>,
)
    ensures
        ({
            let after = with_video(t, key, video);
            &&& after.dom() == t.dom().insert(key)
            &&& after[key].video_path == Some(video)
            &&& t.dom().contains(key) ==> after[key].scaling_mode == t[key].scaling_mode
            &&& !t.dom().contains(key) ==> after[key].scaling_mode == "cover"@
            &&& other != key ==> after[other] == t[other]
        }),
{
}

/// The table gives for a monitor the video that stands under the monitor's number, and none
/// when nothing stands there.
pub proof fn law_video_stands_under_the_number(t: Map<Seq<char>, MonitorView>, monitor: nat)
    ensures
        t.dom().contains(decimal(monitor)) ==> table_video(t, monitor)
            == t[decimal(monitor)].video_path,
        !t.dom().contains(decimal(monitor)) ==> table_video(t, monitor) is None,
{
}

/// A complaint about the configuration names the file or directory that it is about.
pub proof fn law_config_error_names_the_path(path: String)
    ensures
        config_error_text(ConfigError::ReadFailed(path)) == "Failed to read config file: "@ + path@,
        config_error_text(ConfigError::ParseFailed(path)) == "Failed to parse config file: "@
            + path@,
        config_error_text(ConfigError::DirectoryFailed(path))
            == "Failed to create config directory: "@ + path@,
        config_error_text(ConfigError::WriteFailed(path)) == "Failed to write config file: "@
            + path@,
{
}

impl Config {
    /// The standard place of the configuration file, from the values of
    /// `XDG_CONFIG_HOME` and `HOME`.
    pub fn default_config_path(xdg_config_home: Option<&str>, home: Option<&str>) -> (path: Result<
        String,
        ConfigError,
    >)
        ensures
            match config_path_in(opt_str(xdg_config_home), opt_str(home)) {
                Some(p) => path is Ok && path->Ok_0@ == p,
                None => path == Err::<String, ConfigError>(ConfigError::NoConfigDirectory),
            },
    {
        let dir = match xdg_config_home {
            Some(xdg) => xdg.to_owned(),
            None => match home {
                Some(h) => join_path(h, ".config"),
                None => return Err(ConfigError::NoConfigDirectory),
            },
        };
        let app = join_path(dir.as_str(), "cinnamon-wallpaper");
        Ok(join_path(app.as_str(), "config.toml"))
    }

    /// The configuration file to use: the one that was asked for, otherwise the
    /// one in the standard place.
    pub fn config_file(
        config_path: Option<&str>,
        xdg_config_home: Option<&str>,
        home: Option<&str>,
    ) -> (path: Result<String, ConfigError>)
        ensures
            match (opt_str(config_path), config_path_in(opt_str(xdg_config_home), opt_str(home))) {
                (Some(p), _) => path is Ok && path->Ok_0@ == p,
                (None, Some(p)) => path is Ok && path->Ok_0@ == p,
                (None, None) => path == Err::<String, ConfigError>(ConfigError::NoConfigDirectory),
            },
    {
        match config_path {
            Some(path) => Ok(path.to_owned()),
            None => Config::default_config_path(xdg_config_home, home),
        }
    }

    /// The configuration to run with, given what was found at `path`. Without a
    /// file the defaults are used, and kept for future editing.
    pub fn load(path: &str, found: ConfigFile) -> (loaded: Result<LoadedConfig, ConfigError>)
        ensures
            match found {
                ConfigFile::Parsed(c) => loaded is Ok && loaded->Ok_0.config == c
                    && !loaded->Ok_0.write_file,
                ConfigFile::Absent => loaded is Ok && loaded->Ok_0.config@ == default_config()
                    && loaded->Ok_0.write_file,
                ConfigFile::Unreadable => loaded matches Err(ConfigError::ReadFailed(p)) && p@ == path@,
                ConfigFile::Unparsable => loaded matches Err(ConfigError::ParseFailed(p)) && p@ == path@,
            },
    {
        match found {
            ConfigFile::Parsed(config) => Ok(LoadedConfig { config, write_file: false }),
            ConfigFile::Absent => Ok(LoadedConfig { config: Config::default(), write_file: true }),
            ConfigFile::Unreadable => Err(ConfigError::ReadFailed(path.to_owned())),
            ConfigFile::Unparsable => Err(ConfigError::ParseFailed(path.to_owned())),
        }
    }

    /// The directory that a configuration file is to be kept in, which has to be
    /// made before the file is written.
    pub fn directory(path: &str) -> (dir: Option<String>)
        ensures
            dir is Some <==> has_parent(path@),
            dir matches Some(d) ==> components(d@) == components(path@).drop_last(),
    {
        path_parent(path)
    }

    /// What saving the configuration to `path` comes to; `directory` is that of the
    /// file, as far as it was needed.
    pub fn save(path: &str, directory: &str, outcome: WriteOutcome) -> (r: Result<(), ConfigError>)
        ensures
            match outcome {
                WriteOutcome::NoDirectory => r matches Err(ConfigError::DirectoryFailed(d)) && d@
                    == directory@,
                WriteOutcome::NotSerialized => r == Err::<(), ConfigError>(
                    ConfigError::SerializeFailed,
                ),
                WriteOutcome::NotWritten => r matches Err(ConfigError::WriteFailed(p)) && p@ == path@,
                WriteOutcome::Written => r == Ok::<(), ConfigError>(()),
            },
    {
        match outcome {
            WriteOutcome::NoDirectory => Err(ConfigError::DirectoryFailed(directory.to_owned())),
            WriteOutcome::NotSerialized => Err(ConfigError::SerializeFailed),
            WriteOutcome::NotWritten => Err(ConfigError::WriteFailed(path.to_owned())),
            WriteOutcome::Written => Ok(()),
        }
    }

    /// Sets the video of one monitor.
    pub fn set_monitor_video(&mut self, monitor: usize, video_path: &str)
        ensures
            final(self)@ == config_with_video(old(self)@, monitor as nat, video_path@),
    {
        let key = decimal_text(monitor as u64);
        self.cinnamon.monitors.set_video_path(key.as_str(), video_path);
    }

    /// The video configured for one monitor.
    pub fn monitor_video(&self, monitor: usize) -> (video: Option<String>)
        ensures
            opt_text(video) == table_video(self@.cinnamon.monitors, monitor as nat),
    {
        let key = decimal_text(monitor as u64);
        match self.cinnamon.monitors.get(key.as_str()) {
            Some(settings) => clone_opt(&settings.video_path),
            None => None,
        }
    }

    /// Keeps the video and the monitor as the last ones applied.
    pub fn remember_last(&mut self, video_path: &str, monitor: usize)
        ensures
            final(self)@ == (ConfigView {
                cinnamon: CinnamonView {
                    last_video_path: Some(video_path@),
                    last_monitor_index: Some(monitor),
                    ..old(self)@.cinnamon
                },
                ..old(self)@
            }),
    {
        self.cinnamon.last_video_path = Some(video_path.to_owned());
        self.cinnamon.last_monitor_index = Some(monitor);
    }
}

/// Setting the video of a monitor gives that video back for that monitor, and
/// leaves the video of every other monitor alone.
pub proof fn law_video_is_set_for_one_monitor(
    c: ConfigView,
    monitor: nat,
    other: nat,
    video_path: Seq<char>,
)
    ensures
        ({
            let after = config_with_video(c, monitor, video_path);
            table_video(after.cinnamon.monitors, other) == if other == monitor {
                Some(video_path)
            } else {
                table_video(c.cinnamon.monitors, other)
            }
        }),
{
    if decimal(monitor) == decimal(other) {
        law_decimal_injective(monitor, other);
    }
}

} // verus!
