//! The active wallpaper: the process that shows it, how it is remembered across
//! runs, and how it is started and ended.

use crate::config::{CinnamonView, Config, ConfigView};
use crate::paths::{
    components, file_name, join_path, joined, path_eq, path_file_name, same_path,
};
use crate::text::{
    decimal, decimal_text, is_whitespace, law_parse_undoes_decimal, law_trimming_finds_the_core,
    opt_str, opt_text, parse_u32, parsed_u32, signed_decimal, signed_decimal_text, texts, trim_text,
    trimmed,
};
use vstd::prelude::*;
use vstd::string::*;

verus! {

/// How long to wait for a terminated process to leave, in milliseconds.
pub const EXIT_WAIT_MS: u64 = 500;

/// How long to wait between two monitors when a video goes to all of them, in
/// milliseconds.
pub const APPLY_PAUSE_MS: u64 = 250;

/// A message for the user.
#[derive(Debug)]
pub enum Notice {
    /// Something went as intended.
    Success(String),
    /// Something went wrong.
    Error(String),
}

/// A message for the user, as plain values.
pub enum NoticeView {
    Success(Seq<char>),
    Error(Seq<char>),
}

impl View for Notice {
    type V = NoticeView;

    open spec fn view(&self) -> NoticeView {
        match *self {
            Notice::Success(text) => NoticeView::Success(text@),
            Notice::Error(text) => NoticeView::Error(text@),
        }
    }
}

/// The name of a file for messages; nothing when a path leads to no file.
pub open spec fn shown_name(path: Seq<char>) -> Seq<char> {
    match file_name(path) {
        Some(name) => name,
        None => Seq::<char>::empty(),
    }
}

/// The name of a file for messages.
pub fn name_to_show(path: &str) -> (name: String)
    ensures
        name@ == shown_name(path@),
{
    match path_file_name(path) {
        Some(name) => name,
        None => String::new(),
    }
}

/// Where the process number of the active wallpaper is kept.
pub open spec fn pid_file_in(runtime_dir: Option<Seq<char>>, home: Option<Seq<char>>) -> Seq<char> {
    match (runtime_dir, home) {
        (Some(dir), _) => joined(dir, "cinnamon-wallpaper.pid"@),
        (None, Some(h)) => joined(h, ".local/share/cinnamon-wallpaper/cinnamon-wallpaper.pid"@),
        (None, None) => "/tmp/cinnamon-wallpaper.pid"@,
    }
}

/// Where the process number of the active wallpaper is kept, from the value of
/// `XDG_RUNTIME_DIR` and the home directory.
pub fn get_pid_file_path(runtime_dir: Option<&str>, home: Option<&str>) -> (path: String)
    ensures
        path@ == pid_file_in(opt_str(runtime_dir), opt_str(home)),
{
    match runtime_dir {
        Some(dir) => join_path(dir, "cinnamon-wallpaper.pid"),
        None => match home {
            Some(h) => join_path(h, ".local/share/cinnamon-wallpaper/cinnamon-wallpaper.pid"),
            None => "/tmp/cinnamon-wallpaper.pid".to_owned(),
        },
    }
}

/// The contents of the process number file: the number on a line of its own.
pub open spec fn pid_file_text(pid: u32) -> Seq<char> {
    decimal(pid as nat).push('\n')
}

/// The process number that the file's contents give.
pub open spec fn pid_in_text(content: Seq<char>) -> Option<u32> {
    parsed_u32(trimmed(content))
}

/// The process number that the file's contents give.
pub fn pid_to_probe(content: &str) -> (pid: Option<u32>)
    ensures
        pid == pid_in_text(content@),
{
    parse_u32(trim_text(content).as_str())
}

/// The number by which the system knows a process.
pub fn signal_target(pid: u32) -> (target: i32)
    ensures
        target == pid as i32,
{
    #[verifier::truncate]
    (pid as i32)
}

/// What is written to the process number file is read back from it.
pub proof fn law_pid_file_round_trip(pid: u32)
    ensures
        pid_in_text(pid_file_text(pid)) == Some(pid),
{
    let digits = decimal(pid as nat);
    let text = pid_file_text(pid);
    crate::text::lemma_decimal_digits(pid as nat);
    assert(crate::text::is_digit(digits[0]));
    assert(crate::text::is_digit(digits[digits.len() - 1]));
    assert(text[0] == digits[0]);
    reveal_with_fuel(crate::text::trim_front, 1);
    assert(crate::text::trim_front(text) == text);
    reveal_with_fuel(crate::text::trim_back, 2);
    assert(text.drop_last() =~= digits);
    assert(trimmed(text) == digits);
    law_parse_undoes_decimal(pid);
}

/// The process number is found whatever white space stands around it; anything else that is
/// no number gives none.
pub proof fn law_pid_is_read_between_white_space(
    before: Seq<char>,
    number: Seq<char>,
    after: Seq<char>,
)
    requires
        forall|i: int| 0 <= i < before.len() ==> is_whitespace(#[trigger] before[i]),
        forall|i: int| 0 <= i < after.len() ==> is_whitespace(#[trigger] after[i]),
        number.len() > 0 ==> !is_whitespace(number[0]) && !is_whitespace(number.last()),
    ensures
        pid_in_text(before + number + after) == parsed_u32(number),
{
    law_trimming_finds_the_core(before, number, after);
}

/// The process number file holds the number alone on its line.
pub proof fn law_pid_file_holds_one_line(pid: u32)
    ensures
        pid_file_text(pid) == decimal(pid as nat) + seq!['\n'],
{
    assert(pid_file_text(pid) =~= decimal(pid as nat) + seq!['\n']);
}

/// The process number file lies where the socket of the runner does: in the runtime directory,
/// or among the user's data, or among the temporary files.
pub proof fn law_pid_file_lies_beside_the_socket(dir: Seq<char>, home: Option<Seq<char>>)
    ensures
        pid_file_in(Some(dir), home) == joined(dir, "cinnamon-wallpaper.pid"@),
        home matches Some(h) ==> pid_file_in(None, home) == joined(
            joined(h, ".local/share/cinnamon-wallpaper"@),
            "cinnamon-wallpaper.pid"@,
        ),
        pid_file_in(None, None) == joined("/tmp"@, "cinnamon-wallpaper.pid"@),
{
    reveal_strlit(".local/share/cinnamon-wallpaper/cinnamon-wallpaper.pid");
    reveal_strlit(".local/share/cinnamon-wallpaper");
    reveal_strlit("cinnamon-wallpaper.pid");
    reveal_strlit("/tmp");
    reveal_strlit("/tmp/cinnamon-wallpaper.pid");
    if let Some(h) = home {
        assert(joined(h, ".local/share/cinnamon-wallpaper/cinnamon-wallpaper.pid"@) =~= joined(
            joined(h, ".local/share/cinnamon-wallpaper"@),
            "cinnamon-wallpaper.pid"@,
        ));
    }
    assert("/tmp/cinnamon-wallpaper.pid"@ =~= joined("/tmp"@, "cinnamon-wallpaper.pid"@));
}

/// Messages call a file by its name, which is nothing for a path that leads to no file.
pub proof fn law_files_are_called_by_their_names(path: Seq<char>)
    ensures
        file_name(path) matches Some(name) ==> shown_name(path) == name,
        file_name(path) is None ==> shown_name(path).len() == 0,
{
}

/// The wallpaper that is shown, as far as this process knows.
#[derive(Debug)]
pub struct ActiveWallpaper {
    process_id: Option<u32>,
    video_path: Option<String>,
    is_active: bool,
}

/// What is known of the wallpaper that is shown.
pub struct ActiveView {
    pub process_id: Option<u32>,
    pub video_path: Option<Seq<char>>,
    pub is_active: bool,
}

impl View for ActiveWallpaper {
    type V = ActiveView;

    closed spec fn view(&self) -> ActiveView {
        ActiveView {
            process_id: self.process_id,
            video_path: opt_text(self.video_path),
            is_active: self.is_active,
        }
    }
}

/// No wallpaper.
pub open spec fn no_wallpaper() -> ActiveView {
    ActiveView { process_id: None, video_path: None, is_active: false }
}

/// A wallpaper shown by a process.
pub open spec fn shown_by(path: Seq<char>, pid: u32) -> ActiveView {
    ActiveView { process_id: Some(pid), video_path: Some(path), is_active: true }
}

/// The wallpaper shows the given video.
pub open spec fn shows(a: ActiveView, path: Seq<char>) -> bool {
    a.video_path matches Some(current) && same_path(current, path)
}

/// A wallpaper that a process shows is active, with just that process and that video; without a
/// wallpaper there is neither. A video is shown exactly when it is the recorded one, however
/// its path is written.
pub proof fn law_active_wallpaper_is_what_is_shown(
    a: ActiveView,
    path: Seq<char>,
    other: Seq<char>,
    pid: u32,
)
    ensures
        shown_by(path, pid).is_active,
        shown_by(path, pid).process_id == Some(pid),
        shown_by(path, pid).video_path == Some(path),
        !no_wallpaper().is_active,
        no_wallpaper().process_id is None,
        no_wallpaper().video_path is None,
        shows(shown_by(path, pid), other) <==> components(path) == components(other),
        a.video_path is None ==> !shows(a, path),
        a.video_path matches Some(current) ==> (shows(a, path) <==> components(current)
            == components(path)),
{
}

impl Default for ActiveWallpaper {
    fn default() -> (a: Self)
        ensures
            a@ == no_wallpaper(),
    {
        ActiveWallpaper { process_id: None, video_path: None, is_active: false }
    }
}

impl ActiveWallpaper {
    /// The process that shows the wallpaper.
    pub fn process_id(&self) -> (pid: Option<u32>)
        ensures
            pid == self@.process_id,
    {
        self.process_id
    }

    /// The video that is shown.
    pub fn video_path(&self) -> (path: Option<String>)
        ensures
            opt_text(path) == self@.video_path,
    {
        match &self.video_path {
            Some(path) => Some(path.clone()),
            None => None,
        }
    }

    /// Whether a wallpaper is shown.
    pub fn is_active(&self) -> (r: bool)
        ensures
            r == self@.is_active,
    {
        self.is_active
    }

    /// Records that a process shows a video. Returns what the process number file
    /// is to hold.
    pub fn set_active(&mut self, path: &str, pid: u32) -> (file: String)
        ensures
            final(self)@ == shown_by(path@, pid),
            file@ == pid_file_text(pid),
    {
        self.process_id = Some(pid);
        self.video_path = Some(path.to_owned());
        self.is_active = true;
        let mut file = decimal_text(pid as u64);
        file.push('\n');
        file
    }

    /// Records that no wallpaper is shown. The process number file is to be
    /// removed.
    pub fn clear(&mut self)
        ensures
            final(self)@ == no_wallpaper(),
    {
        self.process_id = None;
        self.video_path = None;
        self.is_active = false;
    }

    /// Takes up the process that the process number file names. `alive` says
    /// whether it still runs, and `last_video` what the configuration gives as the
    /// last video, `None` when there is no configuration. Returns whether the file
    /// is stale and to be removed.
    pub fn restore(&mut self, pid: u32, alive: bool, last_video: Option<Option<String>>) -> (stale:
        bool)
        ensures
            stale == !alive,
            final(self)@ == if alive {
                ActiveView {
                    process_id: Some(pid),
                    video_path: match last_video {
                        Some(video) => opt_text(video),
                        None => old(self)@.video_path,
                    },
                    is_active: true,
                }
            } else {
                old(self)@
            },
    {
        if !alive {
            return true;
        }
        self.process_id = Some(pid);
        self.is_active = true;
        if let Some(video) = last_video {
            self.video_path = video;
        }
        false
    }

    /// Whether the wallpaper shows the given video.
    pub fn is_same_video(&self, path: &str) -> (r: bool)
        ensures
            r == shows(self@, path@),
    {
        match &self.video_path {
            Some(current) => path_eq(current.as_str(), path),
            None => false,
        }
    }
}

/// Registers a wallpaper as the active one. Returns what the process number file
/// is to hold.
pub fn mark_active_wallpaper(active: &mut ActiveWallpaper, path: &str, pid: u32) -> (file: String)
    ensures
        final(active)@ == shown_by(path@, pid),
        file@ == pid_file_text(pid),
{
    active.set_active(path, pid)
}

/// Registers the wallpaper that the environment names: the values of
/// `CW_ACTIVE_PID` and `CW_ACTIVE_PATH`. Returns what the process number file is to
/// hold, when there is such a wallpaper.
pub fn inherit_active_from_env(
    active: &mut ActiveWallpaper,
    pid_text: Option<&str>,
    path: Option<&str>,
) -> (file: Option<String>)
    ensures
        match (opt_str(pid_text), opt_str(path)) {
            (Some(text), Some(p)) if parsed_u32(text) is Some => final(active)@ == shown_by(
                p,
                parsed_u32(text)->Some_0,
            ) && opt_text(file) == Some(pid_file_text(parsed_u32(text)->Some_0)),
            _ => final(active)@ == old(active)@ && file is None,
        },
{
    if let Some(text) = pid_text {
        if let Some(pid) = parse_u32(text) {
            if let Some(p) = path {
                return Some(mark_active_wallpaper(active, p, pid));
            }
        }
    }
    None
}

/// The request that the running wallpaper stop gracefully.
#[derive(Debug)]
pub struct StopRequest {
    requested: bool,
}

impl View for StopRequest {
    type V = bool;

    closed spec fn view(&self) -> bool {
        self.requested
    }
}

impl StopRequest {
    /// No request so far.
    pub fn new() -> (r: Self)
        ensures
            !r@,
    {
        StopRequest { requested: false }
    }

    /// Whether a stop was requested.
    pub fn is_requested(&self) -> (r: bool)
        ensures
            r == self@,
    {
        self.requested
    }
}

/// Requests the running wallpaper (possibly this process) to stop gracefully. A
/// request is never taken back.
pub fn request_stop_wallpaper(stop: &mut StopRequest)
    ensures
        final(stop)@,
{
    stop.requested = true;
}

// Ending a wallpaper.

/// How a wallpaper is ended.
#[derive(Debug, Clone, Copy, PartialEq, Eq, Structural)]
pub enum Termination {
    /// There is no process to end.
    Nothing,
    /// The wallpaper is shown by this process: request it to stop.
    RequestStop(u32),
    /// The wallpaper is shown by another process: signal it.
    Signal(u32),
}

/// How the signal to end went.
#[derive(Debug)]
pub enum Signalled {
    /// It was delivered.
    Delivered,
    /// It was not.
    Refused,
    /// It could not even be tried.
    NotSent(String),
}

/// How to end the active wallpaper, from the view of the process `my_pid`.
pub fn termination(active: &ActiveWallpaper, my_pid: u32) -> (t: Termination)
    ensures
        t == match active@.process_id {
            Some(pid) => if pid == my_pid {
                Termination::RequestStop(pid)
            } else {
                Termination::Signal(pid)
            },
            None => Termination::Nothing,
        },
{
    match active.process_id() {
        Some(pid) => if pid == my_pid {
            Termination::RequestStop(pid)
        } else {
            Termination::Signal(pid)
        },
        None => Termination::Nothing,
    }
}

/// The announcement that a process is being ended.
pub fn terminating_notice(pid: u32) -> (n: Notice)
    ensures
        n@ == NoticeView::Success(
            "🔄 Terminando wallpaper anterior (PID: "@ + decimal(pid as nat) + ")"@,
        ),
{
    Notice::Success(
        "🔄 Terminando wallpaper anterior (PID: ".to_owned().concat(
            decimal_text(pid as u64).as_str(),
        ).concat(")"),
    )
}

/// What follows the polite signal: a message, or, when it was refused, the forceful
/// signal.
pub fn after_polite_signal(result: Signalled) -> (n: Option<Notice>)
    ensures
        match result {
            Signalled::Delivered => n is Some && n->Some_0@ == NoticeView::Success(
                "✅ Wallpaper anterior terminado exitosamente"@,
            ),
            Signalled::Refused => n is None,
            Signalled::NotSent(e) => n is Some && n->Some_0@ == NoticeView::Error(
                "❌ Error al intentar terminar proceso anterior: "@ + e@,
            ),
        },
{
    match result {
        Signalled::Delivered => Some(
            Notice::Success("✅ Wallpaper anterior terminado exitosamente".to_owned()),
        ),
        Signalled::Refused => None,
        Signalled::NotSent(e) => Some(
            Notice::Error(
                "❌ Error al intentar terminar proceso anterior: ".to_owned().concat(e.as_str()),
            ),
        ),
    }
}

/// The message that follows the forceful signal.
pub fn after_forceful_signal(result: Signalled) -> (n: Notice)
    ensures
        n@ == match result {
            Signalled::NotSent(e) => NoticeView::Error(
                "❌ No se pudo terminar el proceso anterior: "@ + e@,
            ),
            _ => NoticeView::Success("✅ Wallpaper anterior terminado forzosamente"@),
        },
{
    match result {
        Signalled::NotSent(e) => Notice::Error(
            "❌ No se pudo terminar el proceso anterior: ".to_owned().concat(e.as_str()),
        ),
        _ => Notice::Success("✅ Wallpaper anterior terminado forzosamente".to_owned()),
    }
}

/// What happened last while a wallpaper is being ended.
#[derive(Debug)]
pub enum TerminationEvent {
    /// It is to be ended.
    Begun,
    /// The polite signal was sent.
    Polite(Signalled),
    /// The forceful signal was sent.
    Forceful(Signalled),
}

/// What to do next to end a wallpaper.
#[derive(Debug, Clone, Copy, PartialEq, Eq, Structural)]
pub enum TerminationAction {
    /// Ask the process to terminate.
    SignalPolitely(u32),
    /// Kill the process.
    SignalForcefully(u32),
    /// Nothing more: the process number file is to be removed, after some time for a
    /// process that was signalled to leave.
    Finish { wait: bool },
}

/// What follows from what happened last while a wallpaper is being ended.
pub struct TerminationStep {
    /// The messages for the user.
    pub notices: Vec<Notice>,
    /// What to do next.
    pub action: TerminationAction,
}

/// The messages, as plain values.
pub open spec fn notice_views(notices: Seq<Notice>) -> Seq<NoticeView> {
    notices.map_values(|n: Notice| n@)
}

/// Messages for the user are seen as they are: each with its kind and its text, in order.
pub proof fn law_notices_are_seen_as_they_are(notices: Seq<Notice>, i: int, text: String)
    ensures
        notice_views(notices).len() == notices.len(),
        0 <= i < notices.len() ==> notice_views(notices)[i] == notices[i]@,
        Notice::Success(text)@ == NoticeView::Success(text@),
        Notice::Error(text)@ == NoticeView::Error(text@),
{
}

/// What to do next to end a wallpaper, from the view of the process `my_pid`.
pub open spec fn termination_action(
    a: ActiveView,
    my_pid: u32,
    event: TerminationEvent,
) -> TerminationAction {
    match event {
        TerminationEvent::Begun => match a.process_id {
            Some(pid) if pid != my_pid => TerminationAction::SignalPolitely(pid),
            _ => TerminationAction::Finish { wait: false },
        },
        TerminationEvent::Polite(Signalled::Refused) => match a.process_id {
            Some(pid) => TerminationAction::SignalForcefully(pid),
            None => TerminationAction::Finish { wait: true },
        },
        _ => TerminationAction::Finish { wait: true },
    }
}

/// The messages that follow from what happened last.
pub open spec fn termination_notices(a: ActiveView, event: TerminationEvent) -> Seq<NoticeView> {
    match event {
        TerminationEvent::Begun => match a.process_id {
            Some(pid) => seq![
                NoticeView::Success(
                    "🔄 Terminando wallpaper anterior (PID: "@ + decimal(pid as nat) + ")"@,
                ),
            ],
            None => Seq::<NoticeView>::empty(),
        },
        TerminationEvent::Polite(Signalled::Delivered) => seq![
            NoticeView::Success("✅ Wallpaper anterior terminado exitosamente"@),
        ],
        TerminationEvent::Polite(Signalled::Refused) => Seq::<NoticeView>::empty(),
        TerminationEvent::Polite(Signalled::NotSent(e)) => seq![
            NoticeView::Error("❌ Error al intentar terminar proceso anterior: "@ + e@),
        ],
        TerminationEvent::Forceful(Signalled::NotSent(e)) => seq![
            NoticeView::Error("❌ No se pudo terminar el proceso anterior: "@ + e@),
        ],
        TerminationEvent::Forceful(_) => seq![
            NoticeView::Success("✅ Wallpaper anterior terminado forzosamente"@),
        ],
    }
}

/// What is known of the wallpaper after what happened last: when there is nothing more
/// to do it is gone, whatever came of the signals.
pub open spec fn after_termination(
    a: ActiveView,
    my_pid: u32,
    event: TerminationEvent,
) -> ActiveView {
    if termination_action(a, my_pid, event) is Finish {
        no_wallpaper()
    } else {
        a
    }
}

/// Ends the active wallpaper, step by step: given what happened last, what to do next.
/// A wallpaper that this process shows is requested to stop; another process is asked to
/// terminate, and killed when it refuses. In the end no wallpaper is active, whatever
/// came of the signals.
pub fn terminate_active_wallpaper(
    active: &mut ActiveWallpaper,
    stop: &mut StopRequest,
    my_pid: u32,
    event: TerminationEvent,
) -> (step: TerminationStep)
    ensures
        step.action == termination_action(old(active)@, my_pid, event),
        notice_views(step.notices@) == termination_notices(old(active)@, event),
        final(active)@ == after_termination(old(active)@, my_pid, event),
        final(stop)@ == (old(stop)@ || (event is Begun && old(active)@.process_id == Some(my_pid))),
{
    let mut notices: Vec<Notice> = Vec::new();
    let ghost seen = event;
    let action = match event {
        TerminationEvent::Begun => match termination(active, my_pid) {
            Termination::Nothing => TerminationAction::Finish { wait: false },
            Termination::RequestStop(pid) => {
                notices.push(terminating_notice(pid));
                request_stop_wallpaper(stop);
                TerminationAction::Finish { wait: false }
            },
            Termination::Signal(pid) => {
                notices.push(terminating_notice(pid));
                TerminationAction::SignalPolitely(pid)
            },
        },
        TerminationEvent::Polite(result) => match after_polite_signal(result) {
            Some(notice) => {
                notices.push(notice);
                TerminationAction::Finish { wait: true }
            },
            None => match active.process_id() {
                Some(pid) => TerminationAction::SignalForcefully(pid),
                None => TerminationAction::Finish { wait: true },
            },
        },
        TerminationEvent::Forceful(result) => {
            notices.push(after_forceful_signal(result));
            TerminationAction::Finish { wait: true }
        },
    };
    assert(notice_views(notices@) =~= termination_notices(old(active)@, seen));
    match action {
        TerminationAction::Finish { .. } => {
            active.clear();
        },
        _ => {},
    }
    TerminationStep { notices, action }
}

/// What is known of the wallpaper when the steps that follow from `event` are taken,
/// `fuel` of them at most, given how the two signals go.
pub open spec fn ended(
    a: ActiveView,
    my_pid: u32,
    polite: Signalled,
    forceful: Signalled,
    event: TerminationEvent,
    fuel: nat,
) -> ActiveView
    decreases fuel,
{
    let after = after_termination(a, my_pid, event);
    if fuel == 0 {
        after
    } else {
        match termination_action(a, my_pid, event) {
            TerminationAction::SignalPolitely(_) => ended(
                after,
                my_pid,
                polite,
                forceful,
                TerminationEvent::Polite(polite),
                (fuel - 1) as nat,
            ),
            TerminationAction::SignalForcefully(_) => ended(
                after,
                my_pid,
                polite,
                forceful,
                TerminationEvent::Forceful(forceful),
                (fuel - 1) as nat,
            ),
            TerminationAction::Finish { .. } => after,
        }
    }
}

/// Ending a wallpaper always comes to an end, with at most two signals, and leaves no
/// wallpaper active, however the signals go.
pub proof fn law_termination_leaves_no_wallpaper(
    a: ActiveView,
    my_pid: u32,
    polite: Signalled,
    forceful: Signalled,
    fuel: nat,
)
    requires
        fuel >= 2,
    ensures
        ended(a, my_pid, polite, forceful, TerminationEvent::Begun, fuel) == no_wallpaper(),
{
    reveal_with_fuel(ended, 3);
}

/// This process never signals itself: a wallpaper of its own is stopped without a signal. Any
/// other process is asked to terminate, and is killed only when it refuses that; both signals
/// go to the process that shows the wallpaper.
pub proof fn law_only_other_processes_are_signalled(a: ActiveView, my_pid: u32, pid: u32)
    ensures
        a.process_id is None || a.process_id == Some(my_pid) ==> termination_action(
            a,
            my_pid,
            TerminationEvent::Begun,
        ) == (TerminationAction::Finish { wait: false }),
        a.process_id == Some(pid) && pid != my_pid ==> termination_action(
            a,
            my_pid,
            TerminationEvent::Begun,
        ) == TerminationAction::SignalPolitely(pid),
        a.process_id == Some(pid) ==> termination_action(
            a,
            my_pid,
            TerminationEvent::Polite(Signalled::Refused),
        ) == TerminationAction::SignalForcefully(pid),
        termination_action(a, my_pid, TerminationEvent::Polite(Signalled::Delivered)) == (
        TerminationAction::Finish { wait: true }),
{
}

/// A signal that could not be sent, and every forceful signal, is the last one: some time is
/// left for the process to leave, and then no wallpaper is active.
pub proof fn law_last_signal_is_waited_for(
    a: ActiveView,
    my_pid: u32,
    reason: String,
    result: Signalled,
)
    ensures
        termination_action(a, my_pid, TerminationEvent::Polite(Signalled::NotSent(reason))) == (
        TerminationAction::Finish { wait: true }),
        termination_action(a, my_pid, TerminationEvent::Forceful(result)) == (
        TerminationAction::Finish { wait: true }),
        after_termination(a, my_pid, TerminationEvent::Forceful(result)) == no_wallpaper(),
{
}

/// As long as there is something to do to end a wallpaper, it stays recorded; what is signalled
/// next is known by that record.
pub proof fn law_wallpaper_is_recorded_until_the_end(
    a: ActiveView,
    my_pid: u32,
    event: TerminationEvent,
)
    ensures
        !(termination_action(a, my_pid, event) is Finish) ==> after_termination(a, my_pid, event)
            == a,
        termination_action(a, my_pid, event) is Finish ==> after_termination(a, my_pid, event)
            == no_wallpaper(),
{
}

/// The user is told which process is being ended, and what came of each signal, with the reason
/// for one that could not be sent. A refusal is not told: the next signal follows.
pub proof fn law_ending_is_told(a: ActiveView, pid: u32, reason: String)
    ensures
        a.process_id == Some(pid) ==> termination_notices(a, TerminationEvent::Begun) == seq![
            NoticeView::Success(
                "🔄 Terminando wallpaper anterior (PID: "@ + decimal(pid as nat) + ")"@,
            ),
        ],
        a.process_id is None ==> termination_notices(a, TerminationEvent::Begun).len() == 0,
        termination_notices(a, TerminationEvent::Polite(Signalled::Delivered)) == seq![
            NoticeView::Success("✅ Wallpaper anterior terminado exitosamente"@),
        ],
        termination_notices(a, TerminationEvent::Polite(Signalled::Refused)).len() == 0,
        termination_notices(a, TerminationEvent::Polite(Signalled::NotSent(reason))) == seq![
            NoticeView::Error("❌ Error al intentar terminar proceso anterior: "@ + reason@),
        ],
        termination_notices(a, TerminationEvent::Forceful(Signalled::NotSent(reason))) == seq![
            NoticeView::Error("❌ No se pudo terminar el proceso anterior: "@ + reason@),
        ],
        termination_notices(a, TerminationEvent::Forceful(Signalled::Delivered)) == seq![
            NoticeView::Success("✅ Wallpaper anterior terminado forzosamente"@),
        ],
        termination_notices(a, TerminationEvent::Forceful(Signalled::Refused)) == seq![
            NoticeView::Success("✅ Wallpaper anterior terminado forzosamente"@),
        ],
{
}

/// Whether the stop button has something to stop, and what it says.
pub fn stop_notice(active: &ActiveWallpaper) -> (n: Notice)
    ensures
        n@ == if active@.process_id is Some {
            NoticeView::Success("✅ Wallpaper detenido exitosamente"@)
        } else {
            NoticeView::Error("❌ No hay wallpaper activo para detener."@)
        },
{
    if active.process_id.is_some() {
        Notice::Success("✅ Wallpaper detenido exitosamente".to_owned())
    } else {
        Notice::Error("❌ No hay wallpaper activo para detener.".to_owned())
    }
}

// Applying a wallpaper.

/// The number of monitors that were found, as a natural number.
pub open spec fn found_count(found: Option<usize>) -> Option<nat> {
    match found {
        Some(n) => Some(n as nat),
        None => None,
    }
}

/// All monitors that were found count.
pub proof fn law_every_found_monitor_counts(n: usize)
    ensures
        found_count(Some(n)) == Some(n as nat),
        found_count(None) is None,
{
}

/// The monitors that a video is applied to, for the number of monitors that were
/// found; `None` when they could not be found out.
pub open spec fn apply_targets_of(found: Option<nat>) -> Seq<usize> {
    match found {
        Some(n) if n > 1 => Seq::new(n, |i: int| i as usize),
        _ => seq![0usize],
    }
}

/// The monitors that a video is applied to: all of them when there are several,
/// otherwise the first one.
pub fn apply_targets(found: Option<usize>) -> (targets: Vec<usize>)
    ensures
        targets@ == apply_targets_of(found_count(found)),
{
    let mut targets: Vec<usize> = Vec::new();
    if let Some(n) = found {
        if n > 1 {
            for i in 0..n
                invariant
                    targets@.len() == i,
                    forall|j: int| 0 <= j < i ==> targets@[j] == j,
            {
                targets.push(i);
            }
            assert(targets@ =~= apply_targets_of(Some(n as nat)));
            return targets;
        }
    }
    targets.push(0);
    assert(targets@ =~= seq![0usize]);
    targets
}

/// With several monitors a video is meant for each of them, in order.
pub proof fn law_video_is_meant_for_every_monitor(n: usize, i: usize)
    requires
        n > 1,
        i < n,
    ensures
        apply_targets_of(Some(n as nat)).len() == n,
        apply_targets_of(Some(n as nat))[i as int] == i,
{
}

/// With at most one monitor, or when the monitors could not be found out, a video is meant for
/// the first one alone.
pub proof fn law_single_monitor_is_the_first(n: nat)
    requires
        n <= 1,
    ensures
        apply_targets_of(Some(n)) == seq![0usize],
        apply_targets_of(None) == seq![0usize],
{
}

/// How to apply a video to a monitor.
pub struct ApplyPlan {
    /// The monitor.
    pub monitor: usize,
    /// The configuration with the video kept as the last one; it is to be saved.
    pub config: Config,
    /// Cinnamon's own wallpaper settings are to be saved first.
    pub save_native: bool,
    /// The arguments of the wallpaper process.
    pub arguments: Vec<String>,
}

/// `c` with a video and a monitor kept as the last ones.
pub open spec fn with_last(c: ConfigView, path: Seq<char>, monitor: usize) -> ConfigView {
    ConfigView {
        cinnamon: CinnamonView {
            last_video_path: Some(path),
            last_monitor_index: Some(monitor),
            ..c.cinnamon
        },
        ..c
    }
}

/// The configuration to start from: the defaults when there is none.
pub open spec fn base_config(config: Option<Config>) -> ConfigView {
    match config {
        Some(c) => c@,
        None => crate::config::default_config(),
    }
}

/// The plan applies the video at `path` to a monitor, starting from the configuration
/// `base`.
pub open spec fn is_apply_plan(
    p: ApplyPlan,
    path: Seq<char>,
    monitor: usize,
    base: ConfigView,
) -> bool {
    &&& p.monitor == monitor
    &&& p.config@ == with_last(base, path, monitor)
    &&& p.save_native == !base.cinnamon.preserve_native_wallpaper
    &&& texts(p.arguments@) == seq![path, "--monitor"@, decimal(monitor as nat)]
}

/// Keeping a video as the last one changes nothing else of the configuration.
pub proof fn law_only_the_last_video_changes(c: ConfigView, path: Seq<char>, monitor: usize)
    ensures
        ({
            let after = with_last(c, path, monitor);
            &&& after.video == c.video
            &&& after.window == c.window
            &&& after.performance == c.performance
            &&& after.cinnamon.last_video_path == Some(path)
            &&& after.cinnamon.last_monitor_index == Some(monitor)
            &&& after.cinnamon.monitors == c.cinnamon.monitors
            &&& after.cinnamon.integrate_with_background_system
                == c.cinnamon.integrate_with_background_system
            &&& after.cinnamon.respect_desktop_icons == c.cinnamon.respect_desktop_icons
            &&& after.cinnamon.use_compositor_optimizations
                == c.cinnamon.use_compositor_optimizations
            &&& after.cinnamon.adapt_to_theme_changes == c.cinnamon.adapt_to_theme_changes
            &&& after.cinnamon.preserve_native_wallpaper == c.cinnamon.preserve_native_wallpaper
            &&& after.cinnamon.use_solid_background_for_video
                == c.cinnamon.use_solid_background_for_video
            &&& after.cinnamon.autostart_enabled == c.cinnamon.autostart_enabled
        }),
{
}

/// The process of a plan is told the video and the monitor, and the plan keeps just these as
/// the last ones. Cinnamon's own settings are saved unless the configuration preserves them.
pub proof fn law_plan_applies_the_video_to_its_monitor(
    p: ApplyPlan,
    path: Seq<char>,
    monitor: usize,
    base: ConfigView,
)
    requires
        is_apply_plan(p, path, monitor, base),
    ensures
        p.monitor == monitor,
        p.arguments@.len() == 3,
        p.arguments@[0]@ == path,
        p.arguments@[1]@ == "--monitor"@,
        p.arguments@[2]@ == decimal(monitor as nat),
        p.config@.cinnamon.last_video_path == Some(path),
        p.config@.cinnamon.last_monitor_index == Some(monitor),
        p.config@.cinnamon.monitors == base.cinnamon.monitors,
        p.save_native <==> !base.cinnamon.preserve_native_wallpaper,
{
    let wanted = seq![path, "--monitor"@, decimal(monitor as nat)];
    assert(texts(p.arguments@).len() == 3);
    assert(texts(p.arguments@)[0] == wanted[0]);
    assert(texts(p.arguments@)[1] == wanted[1]);
    assert(texts(p.arguments@)[2] == wanted[2]);
}

/// A plan starts from the configuration that there is, and from the defaults when there is none.
pub proof fn law_plan_starts_from_the_configuration(config: Config)
    ensures
        base_config(Some(config)) == config@,
        base_config(None) == crate::config::default_config(),
{
}

/// How to apply a video to a monitor. Without a configuration (`config` is `None`) the
/// defaults are used.
pub fn apply_plan(path: &str, monitor: usize, config: Option<Config>) -> (plan: ApplyPlan)
    ensures
        is_apply_plan(plan, path@, monitor, base_config(config)),
{
    let mut config = match config {
        Some(c) => c,
        None => Config::default(),
    };
    let save_native = !config.cinnamon.preserve_native_wallpaper;
    config.remember_last(path, monitor);
    let arguments = vec![
        path.to_owned(),
        "--monitor".to_owned(),
        decimal_text(monitor as u64),
    ];
    assert(texts(arguments@) =~= seq![path@, "--monitor"@, decimal(monitor as nat)]);
    ApplyPlan { monitor, config, save_native, arguments }
}

/// How to apply a video to a monitor; nothing is to be done when the video is shown
/// already.
pub fn apply_wallpaper(
    active: &ActiveWallpaper,
    path: &str,
    monitor: usize,
    config: Option<Config>,
) -> (plan: Option<ApplyPlan>)
    ensures
        plan is None <==> shows(active@, path@),
        plan matches Some(p) ==> is_apply_plan(p, path@, monitor, base_config(config)),
{
    if active.is_same_video(path) {
        return None;
    }
    Some(apply_plan(path, monitor, config))
}

/// How to apply a video to all the monitors that it is meant for, given the number of
/// monitors that were found: one plan for each of them, in order. That is decided once
/// for all of them, so the process of one monitor does not keep the video from the next
/// one; nothing is to be done when the video was shown already before.
pub fn apply_to_monitors(
    active: &ActiveWallpaper,
    path: &str,
    found: Option<usize>,
    config: Option<Config>,
) -> (plans: Option<Vec<ApplyPlan>>)
    ensures
        plans is None <==> shows(active@, path@),
        plans matches Some(ps) ==> {
            let targets = apply_targets_of(found_count(found));
            &&& ps@.len() == targets.len()
            &&& forall|i: int|
                0 <= i < ps@.len() ==> is_apply_plan(
                    #[trigger] ps@[i],
                    path@,
                    targets[i],
                    base_config(config),
                )
        },
{
    if active.is_same_video(path) {
        return None;
    }
    let targets = apply_targets(found);
    let mut plans: Vec<ApplyPlan> = Vec::new();
    for k in 0..targets.len()
        invariant
            plans@.len() == k,
            forall|i: int|
                0 <= i < k ==> is_apply_plan(
                    #[trigger] plans@[i],
                    path@,
                    targets@[i],
                    base_config(config),
                ),
    {
        let base = match &config {
            Some(c) => Some(c.clone()),
            None => None,
        };
        plans.push(apply_plan(path, targets[k], base));
    }
    Some(plans)
}

/// The message at the start of applying a video: that it is being applied, or that
/// it is shown already.
pub fn applying_notice(path: &str, already: bool) -> (n: Notice)
    ensures
        n@ == NoticeView::Success(
            if already {
                "⚠️ El video "@ + shown_name(path@) + " ya está aplicado como wallpaper"@
            } else {
                "🌟 Aplicando wallpaper: "@ + shown_name(path@)
            },
        ),
{
    let name = name_to_show(path);
    if already {
        Notice::Success(
            "⚠️ El video ".to_owned().concat(name.as_str()).concat(" ya está aplicado como wallpaper"),
        )
    } else {
        Notice::Success("🌟 Aplicando wallpaper: ".to_owned().concat(name.as_str()))
    }
}

/// The message that a wallpaper process runs.
pub fn started_notice(pid: u32) -> (n: Notice)
    ensures
        n@ == NoticeView::Success(
            "✅ Proceso de wallpaper iniciado (PID: "@ + decimal(pid as nat) + ")"@,
        ),
{
    Notice::Success(
        "✅ Proceso de wallpaper iniciado (PID: ".to_owned().concat(
            decimal_text(pid as u64).as_str(),
        ).concat(")"),
    )
}

/// How a wallpaper process ended.
#[derive(Debug)]
pub enum ProcessEnd {
    /// With success.
    Success,
    /// By a signal.
    Signal(i32),
    /// With an error.
    Failure,
    /// It could not be waited for.
    WaitFailed(String),
}

/// The message for the end of a wallpaper process. A process that was told to
/// terminate, or was killed, was stopped on purpose.
pub open spec fn end_notice(end: ProcessEnd) -> NoticeView {
    match end {
        ProcessEnd::Success => NoticeView::Success("✅ Wallpaper terminado exitosamente"@),
        ProcessEnd::Signal(signal) => if signal == 15 || signal == 9 {
            NoticeView::Success("✅ Wallpaper detenido exitosamente"@)
        } else {
            NoticeView::Error(
                "❌ El proceso de wallpaper terminó con señal: "@ + signed_decimal(signal as int),
            )
        },
        ProcessEnd::Failure => NoticeView::Error("❌ El proceso de wallpaper terminó con error"@),
        ProcessEnd::WaitFailed(e) => NoticeView::Error("❌ Error esperando el proceso: "@ + e@),
    }
}

/// Whether the end of a process that showed `path` leaves no wallpaper: unless
/// another video has taken its place.
pub open spec fn end_clears(a: ActiveView, path: Seq<char>, end: ProcessEnd) -> bool {
    end is WaitFailed || shows(a, path)
}

/// Records the end of a process that showed `path`. Returns whether the state was
/// cleared, so that the process number file is to be removed, and the message.
pub fn process_ended(active: &mut ActiveWallpaper, path: &str, end: ProcessEnd) -> (r: (
    bool,
    Notice,
))
    ensures
        r.0 == end_clears(old(active)@, path@, end),
        r.1@ == end_notice(end),
        final(active)@ == if r.0 {
            no_wallpaper()
        } else {
            old(active)@
        },
{
    let waited = match &end {
        ProcessEnd::WaitFailed(_) => false,
        _ => true,
    };
    let cleared = !waited || active.is_same_video(path);
    if cleared {
        active.clear();
    }
    let notice = match end {
        ProcessEnd::Success => Notice::Success("✅ Wallpaper terminado exitosamente".to_owned()),
        ProcessEnd::Signal(signal) => if signal == 15 || signal == 9 {
            Notice::Success("✅ Wallpaper detenido exitosamente".to_owned())
        } else {
            Notice::Error(
                "❌ El proceso de wallpaper terminó con señal: ".to_owned().concat(
                    signed_decimal_text(signal).as_str(),
                ),
            )
        },
        ProcessEnd::Failure => Notice::Error(
            "❌ El proceso de wallpaper terminó con error".to_owned(),
        ),
        ProcessEnd::WaitFailed(e) => Notice::Error(
            "❌ Error esperando el proceso: ".to_owned().concat(e.as_str()),
        ),
    };
    (cleared, notice)
}

/// A process that ends by itself, or by one of the two signals that stop it, ends well; every
/// other end is an error, told with the signal or the reason.
pub proof fn law_stopped_process_ends_well(signal: i32, reason: String)
    ensures
        end_notice(ProcessEnd::Success) is Success,
        end_notice(ProcessEnd::Signal(signal)) is Success <==> signal == 9 || signal == 15,
        signal == 9 || signal == 15 ==> end_notice(ProcessEnd::Signal(signal))
            == NoticeView::Success("✅ Wallpaper detenido exitosamente"@),
        signal != 9 && signal != 15 ==> end_notice(ProcessEnd::Signal(signal)) == NoticeView::Error(
            "❌ El proceso de wallpaper terminó con señal: "@ + signed_decimal(signal as int),
        ),
        end_notice(ProcessEnd::Failure) is Error,
        end_notice(ProcessEnd::WaitFailed(reason)) == NoticeView::Error(
            "❌ Error esperando el proceso: "@ + reason@,
        ),
{
}

/// The end of a process clears what is recorded exactly when its video is the recorded one, or
/// when it could not be waited for.
pub proof fn law_end_clears_its_own_video(a: ActiveView, path: Seq<char>, end: ProcessEnd)
    ensures
        !(end is WaitFailed) ==> (end_clears(a, path, end) <==> shows(a, path)),
        end is WaitFailed ==> end_clears(a, path, end),
{
}

/// A video that a process shows is not applied a second time; after its process has
/// ended it can be applied again.
pub proof fn law_applied_once_while_it_runs(path: Seq<char>, pid: u32, end: ProcessEnd)
    ensures
        shows(shown_by(path, pid), path),
        end_clears(shown_by(path, pid), path, end),
        !shows(no_wallpaper(), path),
{
}

/// The end of a process whose video was replaced meanwhile does not touch the
/// wallpaper that took its place.
pub proof fn law_replaced_process_leaves_no_trace(
    old_path: Seq<char>,
    new_path: Seq<char>,
    pid: u32,
    end: ProcessEnd,
)
    requires
        !same_path(new_path, old_path),
        !(end is WaitFailed),
    ensures
        !end_clears(shown_by(new_path, pid), old_path, end),
{
}

} // verus!
