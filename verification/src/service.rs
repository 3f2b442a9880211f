//! The wallpaper service: which monitors show a wallpaper, what a request changes,
//! and the pace of the rendering loop.

use crate::cli::{target_monitor, video_not_found};
use crate::config::{
    config_error_text, config_with_video, table_video, Config, ConfigError, MonitorView,
};
use crate::desktop::{is_primary_index, MonitorInfo};
use crate::window::ICON_CHECK_FRAMES;
use std::collections::HashMap;
use vstd::prelude::*;
use vstd::string::*;

verus! {

broadcast use vstd::std_specs::hash::group_hash_axioms;

/// A wallpaper to start: on which monitor, with which video.
#[derive(Debug)]
pub struct Start {
    pub monitor: usize,
    pub video_path: String,
}

/// The wallpapers to start, as plain values.
pub open spec fn starts_view(starts: Seq<Start>) -> Seq<(usize, Seq<char>)> {
    starts.map_values(|s: Start| (s.monitor, s.video_path@))
}

/// Starts are seen as they are: each with its monitor and its video, in order.
pub proof fn law_starts_are_seen_as_they_are(starts: Seq<Start>, i: int)
    ensures
        starts_view(starts).len() == starts.len(),
        0 <= i < starts.len() ==> starts_view(starts)[i] == (
            starts[i].monitor,
            starts[i].video_path@,
        ),
{
}

/// The wallpapers to start on the first `count` monitors: those that have a video
/// and show none yet.
pub open spec fn starts_of(
    running: Set<usize>,
    table: Map<Seq<char>, MonitorView>,
    count: nat,
) -> Seq<(usize, Seq<char>)>
    decreases count,
{
    if count == 0 {
        Seq::<(usize, Seq<char>)>::empty()
    } else {
        let i = (count - 1) as nat;
        let rest = starts_of(running, table, i);
        match table_video(table, i) {
            Some(video) if !running.contains(i as usize) => rest.push((i as usize, video)),
            _ => rest,
        }
    }
}

/// A request to a running service.
#[derive(Debug)]
pub struct Request {
    /// The full path of the video that was asked for, when there is such a file.
    pub video_path: Option<String>,
    /// The monitor that was asked for.
    pub monitor: Option<usize>,
    /// The service is to stop.
    pub stop: bool,
}

/// `target` is the monitor that a request is for: the one that was asked for,
/// otherwise the primary one.
pub open spec fn is_target(
    requested: Option<usize>,
    monitors: Seq<MonitorInfo>,
    target: usize,
) -> bool {
    match requested {
        Some(m) => target == m,
        None => is_primary_index(monitors, target as int),
    }
}

/// The task of a monitor, when there is one.
pub open spec fn taken<H>(handles: Map<usize, H>, monitor: usize) -> Option<H> {
    if handles.dom().contains(monitor) {
        Some(handles[monitor])
    } else {
        None
    }
}

/// A request is for the monitor that it names, whether that is there or not; one that names
/// none is for the primary monitor.
pub proof fn law_request_is_for_its_monitor(
    requested: usize,
    monitors: Seq<MonitorInfo>,
    target: usize,
)
    ensures
        is_target(Some(requested), monitors, target) <==> target == requested,
        is_target(None, monitors, target) <==> is_primary_index(monitors, target as int),
{
}

/// The task that is given up is that of the monitor itself, when it has one.
pub proof fn law_task_of_the_monitor_is_given_up<H>(handles: Map<usize, H>, monitor: usize)
    ensures
        handles.dom().contains(monitor) ==> taken(handles, monitor) == Some(handles[monitor]),
        !handles.dom().contains(monitor) ==> taken(handles, monitor) is None,
{
}

/// What a request demands.
pub struct Demand<H> {
    /// The configuration has changed: it is to be saved, and the wallpapers are
    /// to be started anew.
    pub changed: bool,
    /// The task that showed the wallpaper to be replaced; it is to be aborted.
    pub replaced: Option<H>,
}

/// The running wallpapers: the task of each monitor that shows one.
pub struct WallpaperService<H> {
    handles: HashMap<usize, H>,
}

impl<H> View for WallpaperService<H> {
    type V = Map<usize, H>;

    closed spec fn view(&self) -> Map<usize, H> {
        self.handles@
    }
}

impl<H> WallpaperService<H> {
    /// A service that shows nothing yet.
    pub fn new() -> (s: Self)
        ensures
            s@ == Map::<usize, H>::empty(),
    {
        WallpaperService { handles: HashMap::new() }
    }

    /// Whether monitor `i` shows a wallpaper.
    pub fn is_running(&self, i: usize) -> (r: bool)
        ensures
            r == self@.dom().contains(i),
    {
        self.handles.contains_key(&i)
    }

    /// The wallpapers to start: in the order of the monitors, for each one that
    /// shows none the video that the configuration gives for it.
    pub fn update_wallpapers(&self, config: &Config, monitors: &Vec<MonitorInfo>) -> (starts: Vec<
        Start,
    >)
        ensures
            starts_view(starts@) == starts_of(
                self@.dom(),
                config@.cinnamon.monitors,
                monitors@.len(),
            ),
    {
        let mut starts: Vec<Start> = Vec::new();
        assert(starts_view(starts@) =~= Seq::<(usize, Seq<char>)>::empty());
        for i in 0..monitors.len()
            invariant
                starts_view(starts@) == starts_of(
                    self@.dom(),
                    config@.cinnamon.monitors,
                    i as nat,
                ),
        {
            let ghost before = starts_view(starts@);
            if !self.is_running(i) {
                if let Some(video_path) = config.monitor_video(i) {
                    starts.push(Start { monitor: i, video_path });
                    assert(starts_view(starts@) =~= before.push((i, video_path@)));
                }
            }
            assert((i + 1 - 1) as nat == i as nat);
        }
        starts
    }

    /// Keeps the task that was started on a monitor that shows no wallpaper.
    pub fn started(&mut self, monitor: usize, handle: H)
        requires
            !old(self)@.dom().contains(monitor),
        ensures
            final(self)@ == old(self)@.insert(monitor, handle),
    {
        let _ = self.handles.insert(monitor, handle);
    }

    /// Takes a request to show another video: it is kept in the configuration for
    /// the target monitor, and the task of that monitor is given up. Without a
    /// video nothing changes.
    pub fn take_request(
        &mut self,
        config: &mut Config,
        request: &Request,
        monitors: &Vec<MonitorInfo>,
    ) -> (demand: Demand<H>)
        ensures
            request.video_path is None ==> {
                &&& !demand.changed
                &&& demand.replaced is None
                &&& final(self)@ == old(self)@
                &&& final(config)@ == old(config)@
            },
            request.video_path matches Some(video) ==> demand.changed && exists|target: usize|
                #![trigger is_target(request.monitor, monitors@, target)]
                is_target(request.monitor, monitors@, target)
                    && final(config)@ == config_with_video(old(config)@, target as nat, video@)
                    && final(self)@ == old(self)@.remove(target)
                    && demand.replaced == taken(old(self)@, target),
    {
        match &request.video_path {
            Some(video) => {
                let target: usize = target_monitor(request.monitor, monitors);
                config.set_monitor_video(target, video.as_str());
                let replaced = self.handles.remove(&target);
                assert(self@ =~= old(self)@.remove(target));
                assert(is_target(request.monitor, monitors@, target));
                Demand { changed: true, replaced }
            },
            None => Demand { changed: false, replaced: None },
        }
    }

    /// Takes a request to stop: all tasks are given up, to be aborted, and the service
    /// ends. Without such a request nothing changes.
    pub fn take_stop(&mut self, request: &Request) -> (handles: Option<HashMap<usize, H>>)
        ensures
            request.stop ==> {
                &&& handles is Some
                &&& handles->Some_0@ == old(self)@
                &&& final(self)@ == Map::<usize, H>::empty()
            },
            !request.stop ==> handles is None && final(self)@ == old(self)@,
    {
        if request.stop {
            Some(self.stop_all())
        } else {
            None
        }
    }

    /// Gives up all tasks; they are to be aborted.
    pub fn stop_all(&mut self) -> (handles: HashMap<usize, H>)
        ensures
            handles@ == old(self)@,
            final(self)@ == Map::<usize, H>::empty(),
    {
        let mut handles: HashMap<usize, H> = HashMap::new();
        std::mem::swap(&mut handles, &mut self.handles);
        handles
    }
}

/// Takes the video that the program was started with: it is kept in the configuration for
/// the target monitor, which is returned. `exists` says whether there is such a file, and
/// `full` is its full path, `None` when that is no text. A video that is not there, or whose
/// path the configuration cannot hold, is refused, and the configuration stays as it is.
pub fn request_video(
    config: &mut Config,
    path: &str,
    exists: bool,
    full: Option<String>,
    requested: Option<usize>,
    monitors: &Vec<MonitorInfo>,
) -> (r: Result<usize, String>)
    ensures
        r is Ok <==> exists && full is Some,
        !exists ==> r is Err && r->Err_0@ == "Video file not found: "@ + path@,
        exists && full is None ==> r is Err && r->Err_0@ == config_error_text(
            ConfigError::SerializeFailed,
        ),
        r is Err ==> final(config)@ == old(config)@,
        r matches Ok(target) ==> is_target(requested, monitors@, target) && final(config)@
            == config_with_video(old(config)@, target as nat, full->Some_0@),
{
    if !exists {
        return Err(video_not_found(path));
    }
    match full {
        Some(video) => {
            let target: usize = target_monitor(requested, monitors);
            config.set_monitor_video(target, video.as_str());
            Ok(target)
        },
        None => Err(ConfigError::SerializeFailed.message()),
    }
}

/// A wallpaper is started only where none runs, never twice on one monitor, and
/// always with the video that the configuration gives for that monitor; and every
/// monitor that has a video and shows none gets its wallpaper.
pub proof fn law_starts_fill_the_gaps(
    running: Set<usize>,
    table: Map<Seq<char>, MonitorView>,
    count: nat,
)
    requires
        count <= usize::MAX,
    ensures
        forall|k: int|
            0 <= k < starts_of(running, table, count).len() ==> {
                let s = #[trigger] starts_of(running, table, count)[k];
                s.0 < count && !running.contains(s.0) && table_video(table, s.0 as nat) == Some(s.1)
            },
        forall|j: int, k: int|
            0 <= j < k < starts_of(running, table, count).len() ==> (#[trigger] starts_of(
                running,
                table,
                count,
            )[j]).0 < (#[trigger] starts_of(running, table, count)[k]).0,
        forall|i: usize|
            i < count && !running.contains(i) ==> (#[trigger] table_video(table, i as nat) matches Some(
                video,
            ) ==> starts_of(running, table, count).contains((i, video))),
    decreases count,
{
    if count > 0 {
        let last = (count - 1) as nat;
        law_starts_fill_the_gaps(running, table, last);
        let rest = starts_of(running, table, last);
        let all = starts_of(running, table, count);
        assert forall|i: usize| i < count && !running.contains(i) implies (#[trigger] table_video(
            table,
            i as nat,
        ) matches Some(video) ==> all.contains((i, video))) by {
            if let Some(video) = table_video(table, i as nat) {
                if i < last {
                    assert(rest.contains((i, video)));
                    let k = choose|k: int| 0 <= k < rest.len() && rest[k] == (i, video);
                    assert(all[k] == (i, video));
                } else {
                    assert(all[all.len() - 1] == (i, video));
                }
            }
        }
    }
}

/// After a request the target monitor, when it is there, gets the new video, and
/// no other wallpaper is started that was not due before.
pub proof fn law_request_restarts_its_monitor(
    running: Set<usize>,
    c: crate::config::ConfigView,
    target: usize,
    video: Seq<char>,
    count: nat,
)
    requires
        count <= usize::MAX,
    ensures
        ({
            let after = config_with_video(c, target as nat, video).cinnamon.monitors;
            let starts = starts_of(running.remove(target), after, count);
            &&& target < count ==> starts.contains((target, video))
            &&& forall|k: int|
                0 <= k < starts.len() && (#[trigger] starts[k]).0 != target ==> starts_of(
                    running,
                    c.cinnamon.monitors,
                    count,
                ).contains(starts[k])
        }),
{
    let before = c.cinnamon.monitors;
    let after = config_with_video(c, target as nat, video).cinnamon.monitors;
    let starts = starts_of(running.remove(target), after, count);
    law_starts_fill_the_gaps(running, before, count);
    law_starts_fill_the_gaps(running.remove(target), after, count);
    crate::config::law_video_is_set_for_one_monitor(c, target as nat, target as nat, video);
    assert(table_video(after, target as nat) == Some(video));
    assert forall|k: int|
        0 <= k < starts.len() && (#[trigger] starts[k]).0 != target implies starts_of(
        running,
        before,
        count,
    ).contains(starts[k]) by {
        let s = starts[k];
        crate::config::law_video_is_set_for_one_monitor(c, target as nat, s.0 as nat, video);
        assert(table_video(before, s.0 as nat) == Some(s.1));
        assert(!running.remove(target).contains(s.0));
        assert(!running.contains(s.0));
    }
}

/// The pace of a rendering loop: it looks after the desktop icons every so many
/// frames, and starts to count anew when the video starts anew.
pub struct RenderPace {
    frame_count: i32,
}

impl View for RenderPace {
    type V = int;

    closed spec fn view(&self) -> int {
        self.frame_count as int
    }
}

impl RenderPace {
    #[verifier::type_invariant]
    spec fn well_formed(&self) -> bool {
        0 <= self.frame_count < ICON_CHECK_FRAMES
    }

    /// The pace of a loop that has shown no frame.
    pub fn new() -> (p: Self)
        ensures
            p@ == 0,
    {
        RenderPace { frame_count: 0 }
    }

    /// Counts a frame that was shown. The view is the number of frames since the
    /// icons were last looked after, or since the video started. Returns whether
    /// the icons are to be looked after now.
    pub fn frame_shown(&mut self) -> (check_icons: bool)
        ensures
            check_icons == (old(self)@ + 1 == ICON_CHECK_FRAMES),
            final(self)@ == if check_icons {
                0
            } else {
                old(self)@ + 1
            },
    {
        proof {
            use_type_invariant(&*self);
        }
        let n: i32 = self.frame_count + 1;
        if n == ICON_CHECK_FRAMES {
            self.frame_count = 0;
            true
        } else {
            self.frame_count = n;
            false
        }
    }

    /// Starts to count anew.
    pub fn restarted(&mut self)
        ensures
            final(self)@ == 0,
    {
        self.frame_count = 0;
    }
}

} // verus!
