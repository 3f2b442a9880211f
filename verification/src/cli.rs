//! The command line: what the program is asked to do, and in which order it is
//! decided.

use crate::desktop::{is_primary_index, primary_index, MonitorInfo};
use crate::text::opt_str;
use vstd::prelude::*;
use vstd::string::*;

verus! {

/// What the command line says.
#[derive(Debug)]
pub struct Args {
    /// Path to the video file to use as wallpaper.
    pub video_path: Option<String>,
    /// Monitor to display the wallpaper on (0-based index).
    pub monitor: Option<usize>,
    /// Enable debug logging.
    pub debug: bool,
    /// Configuration file path.
    pub config: Option<String>,
    /// List available monitors.
    pub list_monitors: bool,
    /// Show Cinnamon desktop information.
    pub desktop_info: bool,
    /// Run in background mode (daemon).
    pub daemon: bool,
    /// Stop any running wallpaper.
    pub stop: bool,
    /// Launch the graphical user interface.
    pub gui: bool,
    /// Restore the last applied wallpaper (for autostart).
    pub restore_last: bool,
}

/// The graphical interface is asked for, or nothing else is there to run.
pub open spec fn wants_gui(a: Args) -> bool {
    a.gui || (a.video_path is None && !a.daemon && !a.restore_last)
}

/// The graphical interface is to be launched: it is wanted, and no question about
/// monitors or desktop comes before it.
pub open spec fn launches_gui(a: Args) -> bool {
    wants_gui(a) && !a.list_monitors && !a.desktop_info
}

/// The suffix of the instance that a command line belongs to.
pub open spec fn suffix_of(a: Args) -> Option<Seq<char>> {
    if wants_gui(a) {
        Some("gui"@)
    } else {
        None
    }
}

/// How the attempt to become the primary instance ended.
#[derive(Debug, Clone, Copy, PartialEq, Eq, Structural)]
pub enum Acquired {
    /// This is the primary instance.
    Primary,
    /// Another instance got the arguments.
    Forwarded,
    /// Neither could be done.
    Failed,
}

/// What the program does after that attempt.
#[derive(Debug, Clone, Copy, PartialEq, Eq, Structural)]
pub enum Launch {
    /// Leave: the other instance takes care.
    Exit,
    /// Launch the graphical interface.
    Gui,
    /// Run without one.
    Service,
}

/// What a run without the graphical interface is for.
#[derive(Debug, Clone, Copy, PartialEq, Eq, Structural)]
pub enum RunMode {
    /// List the monitors and leave.
    ListMonitors,
    /// Show the desktop information and leave.
    DesktopInfo,
    /// Show wallpapers.
    Wallpapers,
}

impl Args {
    /// The least level of log messages to show when nothing else is asked for.
    pub fn log_filter(&self) -> (level: &'static str)
        ensures
            level@ == if self.debug {
                "debug"@
            } else {
                "info"@
            },
    {
        if self.debug {
            "debug"
        } else {
            "info"
        }
    }

    /// Whether the program only acknowledges a stop command: that needs no
    /// instance at all.
    pub fn is_stop_command(&self) -> (r: bool)
        ensures
            r == self.stop,
    {
        self.stop
    }

    fn gui_wanted(&self) -> (r: bool)
        ensures
            r == wants_gui(*self),
    {
        self.gui || (self.video_path.is_none() && !self.daemon && !self.restore_last)
    }

    /// Which instance this one competes with: interface and runner have one each.
    pub fn instance_suffix(&self) -> (suffix: Option<&'static str>)
        ensures
            opt_str(suffix) == suffix_of(*self),
    {
        if self.gui_wanted() {
            Some("gui")
        } else {
            None
        }
    }

    /// What to do after the attempt to become the primary instance. One that
    /// failed does not keep the program from running.
    pub fn after_acquire(&self, acquired: Acquired) -> (launch: Launch)
        ensures
            launch == if acquired == Acquired::Forwarded {
                Launch::Exit
            } else if launches_gui(*self) {
                Launch::Gui
            } else {
                Launch::Service
            },
    {
        if acquired == Acquired::Forwarded {
            Launch::Exit
        } else if self.gui_wanted() && !self.list_monitors && !self.desktop_info {
            Launch::Gui
        } else {
            Launch::Service
        }
    }

    /// What a run without the graphical interface is for.
    pub fn run_mode(&self) -> (mode: RunMode)
        ensures
            mode == if self.list_monitors {
                RunMode::ListMonitors
            } else if self.desktop_info {
                RunMode::DesktopInfo
            } else {
                RunMode::Wallpapers
            },
    {
        if self.list_monitors {
            RunMode::ListMonitors
        } else if self.desktop_info {
            RunMode::DesktopInfo
        } else {
            RunMode::Wallpapers
        }
    }
}

/// The graphical interface opens when nothing at all is asked for. It never runs as
/// the instance of the wallpaper runner, and a video on the command line goes to the
/// runner unless the interface is asked for.
pub proof fn law_interface_has_its_own_instance(a: Args)
    ensures
        a.video_path is None && !a.daemon && !a.restore_last && !a.list_monitors && !a.desktop_info
            ==> launches_gui(a),
        launches_gui(a) ==> suffix_of(a) == Some("gui"@),
        a.video_path is Some && !a.gui ==> suffix_of(a) is None && !launches_gui(a),
{
}

/// A command line belongs to the interface's instance exactly when the interface is asked
/// for, or when it asks for nothing else: neither for a video, nor for the daemon, nor to
/// restore the last wallpaper. Every other one belongs to the runner's instance.
pub proof fn law_restoring_belongs_to_the_runner(a: Args)
    ensures
        suffix_of(a) == Some("gui"@) <==> a.gui || (a.video_path is None && !a.daemon
            && !a.restore_last),
        suffix_of(a) is Some ==> suffix_of(a) == Some("gui"@),
        a.restore_last && !a.gui ==> suffix_of(a) is None,
        a.daemon && !a.gui ==> suffix_of(a) is None,
{
}

/// The interface is launched exactly for the command lines of its instance that ask neither
/// for the monitors nor about the desktop.
pub proof fn law_questions_come_before_the_interface(a: Args)
    ensures
        launches_gui(a) <==> suffix_of(a) is Some && !a.list_monitors && !a.desktop_info,
{
}

/// The monitor that a video is for: the one that was asked for, otherwise the
/// primary one.
pub fn target_monitor(requested: Option<usize>, monitors: &Vec<MonitorInfo>) -> (index: usize)
    ensures
        match requested {
            Some(i) => index == i,
            None => is_primary_index(monitors@, index as int),
        },
{
    match requested {
        Some(i) => i,
        None => primary_index(monitors),
    }
}

/// The complaint about a video file that is not there.
pub fn video_not_found(path: &str) -> (message: String)
    ensures
        message@ == "Video file not found: "@ + path@,
{
    "Video file not found: ".to_owned().concat(path)
}

} // verus!
