//! The gallery window: the selected video, what the window shows, and how videos are
//! added, previewed and removed.

use crate::active::{name_to_show, shown_name, Notice, NoticeView};
use crate::library::{
    is_supported_video_format, is_video, library_error_text, LibraryError, Removal,
};
use crate::paths::{join_path, joined};
use crate::text::{decimal, decimal_text, opt_str, opt_text, texts};
use vstd::prelude::*;
use vstd::string::*;

verus! {

/// The application's identifier.
pub const APP_ID: &'static str = "com.cinnamonwallpaper.CinnamonWallpaper";

/// The width that a card of the gallery aims at.
pub const CARD_WIDTH: i32 = 360;

/// The graphical application: the video that is selected in it.
#[derive(Debug)]
pub struct WallpaperApp {
    video_path: Option<String>,
}

impl View for WallpaperApp {
    type V = Option<Seq<char>>;

    closed spec fn view(&self) -> Option<Seq<char>> {
        opt_text(self.video_path)
    }
}

/// What adding a file came to.
#[derive(Debug)]
pub struct Added {
    /// The video was added; its preview is to be made.
    pub added: Option<String>,
    pub notice: Notice,
}

/// What is said after a file was copied to the library, or could not be.
pub open spec fn copied_notice(result: Result<String, LibraryError>) -> NoticeView {
    match result {
        Ok(path) => NoticeView::Success(
            "🎉 Video añadido a la biblioteca: "@ + shown_name(path@),
        ),
        Err(e) => NoticeView::Error(
            "❌ Error al copiar video a la biblioteca: "@ + library_error_text(e),
        ),
    }
}

impl WallpaperApp {
    /// The application with no video selected. It always succeeds.
    pub fn new() -> (app: Result<Self, String>)
        ensures
            app is Ok,
            app->Ok_0@ == None::<Seq<char>>,
    {
        Ok(WallpaperApp { video_path: None })
    }

    /// The selected video.
    pub fn selected(&self) -> (path: Option<String>)
        ensures
            opt_text(path) == self@,
    {
        match &self.video_path {
            Some(path) => Some(path.clone()),
            None => None,
        }
    }

    /// Selects a video.
    pub fn select(&mut self, path: &str) -> (n: Notice)
        ensures
            final(self)@ == Some(path@),
            n@ == NoticeView::Success("✅ Video seleccionado: "@ + shown_name(path@)),
    {
        self.video_path = Some(path.to_owned());
        Notice::Success("✅ Video seleccionado: ".to_owned().concat(name_to_show(path).as_str()))
    }

    /// Takes up how copying a file to the library went: a video that was added is
    /// selected.
    pub fn file_copied(&mut self, result: Result<String, LibraryError>) -> (a: Added)
        ensures
            a.notice@ == copied_notice(result),
            match result {
                Ok(path) => final(self)@ == Some(path@) && opt_text(a.added) == Some(path@),
                Err(_) => final(self)@ == old(self)@ && a.added is None,
            },
    {
        match result {
            Ok(path) => {
                self.video_path = Some(path.clone());
                let notice = Notice::Success(
                    "🎉 Video añadido a la biblioteca: ".to_owned().concat(
                        name_to_show(path.as_str()).as_str(),
                    ),
                );
                Added { added: Some(path), notice }
            },
            Err(e) => Added {
                added: None,
                notice: Notice::Error(
                    "❌ Error al copiar video a la biblioteca: ".to_owned().concat(
                        e.message().as_str(),
                    ),
                ),
            },
        }
    }
}

/// The way in which a file came.
#[derive(Debug, Clone, Copy, PartialEq, Eq, Structural)]
pub enum Intake {
    /// Dropped onto the window.
    Dropped,
    /// Chosen in the file dialog.
    Chosen,
}

/// What is said when a file is refused.
pub open spec fn refusal_notice(path: Seq<char>, intake: Intake) -> NoticeView {
    NoticeView::Error(
        match intake {
            Intake::Dropped => "❌ Formato no soportado: "@ + path,
            Intake::Chosen =>
                "❌ Uno de los archivos seleccionados no es un formato de video soportado"@,
        },
    )
}

/// Whether a file is refused, and what is said then: only videos are taken.
pub fn refuse_file(path: &str, intake: Intake) -> (n: Option<Notice>)
    ensures
        n is None <==> is_video(path@),
        n matches Some(notice) ==> notice@ == refusal_notice(path@, intake),
{
    if is_supported_video_format(path) {
        return None;
    }
    match intake {
        Intake::Dropped => Some(Notice::Error("❌ Formato no soportado: ".to_owned().concat(path))),
        Intake::Chosen => Some(
            Notice::Error(
                "❌ Uno de los archivos seleccionados no es un formato de video soportado".to_owned(),
            ),
        ),
    }
}

/// A video that was added is told by the name of its copy, one that could not be copied by the
/// reason; a refused file is called by its path when it was dropped.
pub proof fn law_adding_and_refusing_are_told(path: String, error: LibraryError)
    ensures
        copied_notice(Ok(path)) == NoticeView::Success(
            "🎉 Video añadido a la biblioteca: "@ + shown_name(path@),
        ),
        copied_notice(Err(error)) == NoticeView::Error(
            "❌ Error al copiar video a la biblioteca: "@ + library_error_text(error),
        ),
        refusal_notice(path@, Intake::Dropped) == NoticeView::Error(
            "❌ Formato no soportado: "@ + path@,
        ),
        refusal_notice(path@, Intake::Chosen) == NoticeView::Error(
            "❌ Uno de los archivos seleccionados no es un formato de video soportado"@,
        ),
{
}

/// A file that came.
#[derive(Debug)]
pub struct Arrival {
    /// Its path.
    pub path: String,
    /// How copying it to the library went; only videos are copied.
    pub copied: Option<Result<String, LibraryError>>,
}

/// Copying was tried for every video among the files.
pub open spec fn videos_were_copied(files: Seq<Arrival>) -> bool {
    forall|i: int|
        0 <= i < files.len() && is_video((#[trigger] files[i]).path@) ==> files[i].copied is Some
}

/// The video that a file became in the library, when it is a video and could be copied.
pub open spec fn taken_as(file: Arrival) -> Option<Seq<char>> {
    match file.copied {
        Some(Ok(path)) if is_video(file.path@) => Some(path@),
        _ => None,
    }
}

/// What is said about a file.
pub open spec fn arrival_notice(file: Arrival, intake: Intake) -> NoticeView {
    if is_video(file.path@) {
        copied_notice(file.copied->Some_0)
    } else {
        refusal_notice(file.path@, intake)
    }
}

/// The videos that the files became in the library, in order.
pub open spec fn videos_taken(files: Seq<Arrival>) -> Seq<Seq<char>>
    decreases files.len(),
{
    if files.len() == 0 {
        Seq::<Seq<char>>::empty()
    } else {
        let rest = videos_taken(files.drop_last());
        match taken_as(files.last()) {
            Some(path) => rest.push(path),
            None => rest,
        }
    }
}

/// What is selected after the files were taken: the last video, if there is one.
pub open spec fn selected_after(selected: Option<Seq<char>>, files: Seq<Arrival>) -> Option<
    Seq<char>,
> {
    if videos_taken(files).len() > 0 {
        Some(videos_taken(files).last())
    } else {
        selected
    }
}

impl WallpaperApp {
    /// Takes several files, one after the other: each video that could be copied is
    /// added, whatever becomes of the others, and the last one is selected.
    pub fn take_files(&mut self, files: Vec<Arrival>, intake: Intake) -> (added: Vec<Added>)
        requires
            videos_were_copied(files@),
        ensures
            added@.len() == files@.len(),
            forall|i: int|
                0 <= i < files@.len() ==> {
                    &&& opt_text((#[trigger] added@[i]).added) == taken_as(files@[i])
                    &&& added@[i].notice@ == arrival_notice(files@[i], intake)
                },
            final(self)@ == selected_after(old(self)@, files@),
    {
        let mut added: Vec<Added> = Vec::new();
        let ghost all = files@;
        for file in it: files
            invariant
                it.seq() == all,
                videos_were_copied(all),
                added@.len() == it.index(),
                forall|i: int|
                    0 <= i < added@.len() ==> {
                        &&& opt_text((#[trigger] added@[i]).added) == taken_as(all[i])
                        &&& added@[i].notice@ == arrival_notice(all[i], intake)
                    },
                self@ == selected_after(old(self)@, all.take(it.index())),
        {
            assert(file == all[it.index()]);
            assert(all.take(it.index() + 1).drop_last() =~= all.take(it.index()));
            match refuse_file(file.path.as_str(), intake) {
                Some(notice) => {
                    added.push(Added { added: None, notice });
                },
                None => {
                    if let Some(result) = file.copied {
                        added.push(self.file_copied(result));
                    }
                },
            }
        }
        assert(all.take(all.len() as int) =~= all);
        added
    }
}

/// Several files are taken one by one: what comes of them together is what comes of each,
/// in order, so a file that is not taken stops none of the others.
pub proof fn law_files_are_taken_one_by_one(a: Seq<Arrival>, file: Arrival, b: Seq<Arrival>)
    ensures
        videos_taken(a.push(file) + b) == videos_taken(a) + (match taken_as(file) {
            Some(path) => seq![path],
            None => Seq::<Seq<char>>::empty(),
        }) + videos_taken(b),
    decreases b.len(),
{
    let all = a.push(file) + b;
    let one = match taken_as(file) {
        Some(path) => seq![path],
        None => Seq::<Seq<char>>::empty(),
    };
    if b.len() == 0 {
        assert(all =~= a.push(file));
        assert(a.push(file).drop_last() =~= a);
        assert(videos_taken(all) =~= videos_taken(a) + one + videos_taken(b));
    } else {
        law_files_are_taken_one_by_one(a, file, b.drop_last());
        assert(all.drop_last() =~= a.push(file) + b.drop_last());
        assert(videos_taken(all) =~= videos_taken(a) + one + videos_taken(b));
    }
}

/// A file becomes a video of the library exactly when it is one by its name and could be
/// copied, and then the copy is that video.
pub proof fn law_copied_video_is_taken(file: Arrival)
    ensures
        taken_as(file) is Some <==> is_video(file.path@) && file.copied is Some && file.copied->Some_0 is Ok,
        taken_as(file) matches Some(path) ==> path == file.copied->Some_0->Ok_0@,
{
}

/// The last video that was taken is selected; without one the selection stays. Files after it
/// that are not taken do not matter.
pub proof fn law_last_video_is_selected(
    selected: Option<Seq<char>>,
    files: Seq<Arrival>,
    file: Arrival,
)
    ensures
        selected_after(selected, Seq::<Arrival>::empty()) == selected,
        taken_as(file) matches Some(path) ==> selected_after(selected, files.push(file)) == Some(
            path,
        ),
        taken_as(file) is None ==> selected_after(selected, files.push(file)) == selected_after(
            selected,
            files,
        ),
{
    assert(files.push(file).drop_last() =~= files);
}

/// Of a file that came it is said by which name its copy is known, or why it could not be
/// copied, or that its format is refused; a dropped file is then called by its path.
pub proof fn law_arrival_is_told(file: Arrival, intake: Intake)
    ensures
        is_video(file.path@) && file.copied is Some ==> arrival_notice(file, intake)
            == match file.copied->Some_0 {
            Ok(path) => NoticeView::Success(
                "🎉 Video añadido a la biblioteca: "@ + shown_name(path@),
            ),
            Err(e) => NoticeView::Error(
                "❌ Error al copiar video a la biblioteca: "@ + library_error_text(e),
            ),
        },
        !is_video(file.path@) ==> arrival_notice(file, Intake::Dropped) == NoticeView::Error(
            "❌ Formato no soportado: "@ + file.path@,
        ),
        !is_video(file.path@) ==> arrival_notice(file, Intake::Chosen) == NoticeView::Error(
            "❌ Uno de los archivos seleccionados no es un formato de video soportado"@,
        ),
{
}

// What the window shows.

/// What the window shows below its header.
#[derive(Debug, Clone, Copy, PartialEq, Eq, Structural)]
pub enum GalleryContent {
    /// The area to drop a first video onto.
    DropArea,
    /// The cards of the videos.
    Cards,
}

/// What the window shows: an area to drop a video onto when there is none, otherwise
/// the videos.
pub fn update_gallery(videos: &Vec<String>) -> (content: GalleryContent)
    ensures
        content == if videos@.len() == 0 {
            GalleryContent::DropArea
        } else {
            GalleryContent::Cards
        },
{
    if videos.len() == 0 {
        GalleryContent::DropArea
    } else {
        GalleryContent::Cards
    }
}

/// The number of videos, for the header.
pub fn count_text(count: usize) -> (text: String)
    ensures
        text@ == "Videos: "@ + decimal(count as nat),
{
    "Videos: ".to_owned().concat(decimal_text(count as u64).as_str())
}

/// The layout of the cards.
#[derive(Debug)]
pub struct ViewMode {
    list: bool,
}

impl View for ViewMode {
    /// The cards are laid out as a list.
    type V = bool;

    closed spec fn view(&self) -> bool {
        self.list
    }
}

impl ViewMode {
    /// The gallery.
    pub fn new() -> (m: Self)
        ensures
            !m@,
    {
        ViewMode { list: false }
    }

    /// Whether the cards are laid out as a list.
    pub fn is_list_mode(&self) -> (r: bool)
        ensures
            r == self@,
    {
        self.list
    }

    /// Changes between gallery and list; doing it twice changes nothing.
    pub fn toggle_view_mode(&mut self)
        ensures
            final(self)@ == !old(self)@,
    {
        self.list = !self.list;
    }

    /// The label of the button that changes the layout: the other one.
    pub fn button_label(&self) -> (label: &'static str)
        ensures
            label@ == if self@ {
                "🔲 Modo Galería"@
            } else {
                "📋 Modo Lista"@
            },
    {
        if self.list {
            "🔲 Modo Galería"
        } else {
            "📋 Modo Lista"
        }
    }

    /// What is said after the layout was changed.
    pub fn changed_message(&self) -> (message: String)
        ensures
            message@ == "🔄 Cambiado a modo "@ + (if self@ {
                "lista"@
            } else {
                "galería"@
            }),
    {
        "🔄 Cambiado a modo ".to_owned().concat(
            if self.list {
                "lista"
            } else {
                "galería"
            },
        )
    }
}

/// The directories in which the file dialog may begin, best first.
pub fn dialog_folders(home: Option<&str>) -> (folders: Vec<String>)
    ensures
        texts(folders@) == match opt_str(home) {
            Some(h) => seq![joined(h, "Videos"@), joined(h, "Vídeos"@)],
            None => Seq::<Seq<char>>::empty(),
        },
{
    let mut folders: Vec<String> = Vec::new();
    if let Some(h) = home {
        folders.push(join_path(h, "Videos"));
        folders.push(join_path(h, "Vídeos"));
        assert(texts(folders@) =~= seq![joined(h@, "Videos"@), joined(h@, "Vídeos"@)]);
    } else {
        assert(texts(folders@) =~= Seq::<Seq<char>>::empty());
    }
    folders
}

// Removing and previewing.

/// What is said after a video was removed, or could not be; `failure` tells why.
pub fn removal_notice(removal: &Removal, failure: Option<&str>) -> (n: Notice)
    ensures
        n@ == match (*removal, opt_str(failure)) {
            (Removal::Directory(dir), None) => NoticeView::Success(
                "🗑️ Video eliminado (con assets): "@ + dir@,
            ),
            (Removal::Directory(_), Some(e)) => NoticeView::Error(
                "❌ Error al eliminar carpeta del video: "@ + e,
            ),
            (Removal::File(path), None) => NoticeView::Success(
                "🗑️ Video eliminado: "@ + shown_name(path@),
            ),
            (Removal::File(_), Some(e)) => NoticeView::Error("❌ Error al eliminar video: "@ + e),
        },
{
    match removal {
        Removal::Directory(dir) => match failure {
            None => Notice::Success(
                "🗑️ Video eliminado (con assets): ".to_owned().concat(dir.as_str()),
            ),
            Some(e) => Notice::Error(
                "❌ Error al eliminar carpeta del video: ".to_owned().concat(e),
            ),
        },
        Removal::File(path) => match failure {
            None => Notice::Success(
                "🗑️ Video eliminado: ".to_owned().concat(name_to_show(path.as_str()).as_str()),
            ),
            Some(e) => Notice::Error("❌ Error al eliminar video: ".to_owned().concat(e)),
        },
    }
}

/// A player to preview a video with.
#[derive(Debug)]
pub struct Player {
    pub program: String,
    pub arguments: Vec<String>,
}

/// The players, as plain values.
pub open spec fn players_view(players: Seq<Player>) -> Seq<(Seq<char>, Seq<Seq<char>>)> {
    players.map_values(|p: Player| (p.program@, texts(p.arguments@)))
}

/// Players are seen as they are: each with its program and its arguments, in order.
pub proof fn law_players_are_seen_as_they_are(players: Seq<Player>, i: int)
    ensures
        players_view(players).len() == players.len(),
        0 <= i < players.len() ==> players_view(players)[i] == (
            players[i].program@,
            texts(players[i].arguments@),
        ),
{
}

/// The players to preview a video with, in the order in which they are tried.
pub open spec fn players_for(video: Seq<char>) -> Seq<(Seq<char>, Seq<Seq<char>>)> {
    seq![
        ("mpv"@, seq!["--geometry=800x600"@, video]),
        ("vlc"@, seq![video]),
        ("totem"@, seq![video]),
        ("xdg-open"@, seq![video]),
    ]
}

/// Every player is given the video as its last argument, and none but the first anything else.
pub proof fn law_every_player_gets_the_video(video: Seq<char>, i: int)
    requires
        0 <= i < 4,
    ensures
        players_for(video).len() == 4,
        players_for(video)[i].1.last() == video,
        i == 0 ==> players_for(video)[i].1 == seq!["--geometry=800x600"@, video],
        i > 0 ==> players_for(video)[i].1 == seq![video],
        players_for(video)[i].0 == seq!["mpv"@, "vlc"@, "totem"@, "xdg-open"@][i],
{
}

/// The players to preview a video with, in the order in which they are tried; the
/// first one that starts is used.
pub fn preview_players(video_path: &str) -> (players: Vec<Player>)
    ensures
        players_view(players@) == players_for(video_path@),
{
    let first = vec!["--geometry=800x600".to_owned(), video_path.to_owned()];
    assert(texts(first@) =~= seq!["--geometry=800x600"@, video_path@]);
    let second = vec![video_path.to_owned()];
    let third = vec![video_path.to_owned()];
    let fourth = vec![video_path.to_owned()];
    assert(texts(second@) =~= seq![video_path@]);
    assert(texts(third@) =~= seq![video_path@]);
    assert(texts(fourth@) =~= seq![video_path@]);
    let players = vec![
        Player { program: "mpv".to_owned(), arguments: first },
        Player { program: "vlc".to_owned(), arguments: second },
        Player { program: "totem".to_owned(), arguments: third },
        Player { program: "xdg-open".to_owned(), arguments: fourth },
    ];
    assert(players_view(players@) =~= players_for(video_path@));
    players
}

/// What is said after the players were tried: which one started, if any.
pub fn preview_notice(started: Option<&str>) -> (n: Notice)
    ensures
        n@ == match opt_str(started) {
            Some(program) => NoticeView::Success("✅ Abriendo preview con "@ + program),
            None => NoticeView::Error(
                "❌ No se encontró ningún reproductor de video instalado. Instala mpv, vlc o totem."@,
            ),
        },
{
    match started {
        Some(program) => Notice::Success("✅ Abriendo preview con ".to_owned().concat(program)),
        None => Notice::Error(
            "❌ No se encontró ningún reproductor de video instalado. Instala mpv, vlc o totem.".to_owned(),
        ),
    }
}

} // verus!
