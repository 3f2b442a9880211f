//! The video library: where videos and their pictures are kept, which files count
//! as videos, and what the cards say about them.

use crate::paths::{
    components, extension, file_name, file_stem, has_parent, is_proper_name, is_under, join_path,
    joined, lemma_components_join, lemma_file_name, path_eq, path_extension, path_file_name,
    path_file_stem, path_parent, path_starts_with, same_path,
};
use crate::text::{
    ascii_lower, ascii_only, ascii_upper, chars_of, contains_seq, contains_text, decimal, decimal_text,
    hex_char, hexadecimal, hexadecimal_text, is_whitespace, law_found_pattern_is_there,
    law_hexadecimal_injective, law_pattern_is_found, law_trimming_finds_the_core, lossy_text,
    lossy_utf8, lowercase, lowercase_text, opt_str, opt_text, same_text, texts, trim_text, trimmed,
    uppercase, uppercase_text,
};
use std::collections::hash_map::DefaultHasher;
use std::hash::{Hash, Hasher};
use std::path::Path;
use vstd::prelude::*;
use vstd::std_specs::hash::DefaultHasherAdditionalSpecFns;
use vstd::string::*;
use vstd::utf8::*;

verus! {

/// How deep the library is searched for videos.
pub const SEARCH_DEPTH: usize = 4;

/// The width that pictures are scaled to.
pub const PICTURE_WIDTH: i32 = 320;

/// The height of a picture of unknown proportions.
pub const PICTURE_HEIGHT: i32 = 180;

// Directories.

/// The directory of the user's data.
pub open spec fn data_dir_of(data_dir: Option<Seq<char>>, home: Option<Seq<char>>) -> Seq<char> {
    match (data_dir, home) {
        (Some(dir), _) => dir,
        (None, Some(h)) => joined(h, ".local/share"@),
        (None, None) => joined(Seq::<char>::empty(), ".local/share"@),
    }
}

/// The directory of the videos.
pub open spec fn library_dir_of(data_dir: Option<Seq<char>>, home: Option<Seq<char>>) -> Seq<char> {
    joined(joined(data_dir_of(data_dir, home), "cinnamon-wallpaper"@), "videos"@)
}

/// The directory of the pictures of videos outside the library.
pub open spec fn thumbnail_dir_of(
    data_dir: Option<Seq<char>>,
    home: Option<Seq<char>>,
) -> Seq<char> {
    joined(joined(data_dir_of(data_dir, home), "cinnamon-wallpaper"@), "thumbnails"@)
}

fn app_data_dir(data_dir: Option<&str>, home: Option<&str>) -> (dir: String)
    ensures
        dir@ == joined(data_dir_of(opt_str(data_dir), opt_str(home)), "cinnamon-wallpaper"@),
{
    let base = match data_dir {
        Some(dir) => dir.to_owned(),
        None => match home {
            Some(h) => join_path(h, ".local/share"),
            None => {
                let empty = String::new();
                join_path(empty.as_str(), ".local/share")
            },
        },
    };
    join_path(base.as_str(), "cinnamon-wallpaper")
}

/// The directory of the videos, from the user's data and home directories.
pub fn get_video_library_dir(data_dir: Option<&str>, home: Option<&str>) -> (dir: String)
    ensures
        dir@ == library_dir_of(opt_str(data_dir), opt_str(home)),
{
    join_path(app_data_dir(data_dir, home).as_str(), "videos")
}

/// The directory of the pictures of videos outside the library.
pub fn get_thumbnail_dir(data_dir: Option<&str>, home: Option<&str>) -> (dir: String)
    ensures
        dir@ == thumbnail_dir_of(opt_str(data_dir), opt_str(home)),
{
    join_path(app_data_dir(data_dir, home).as_str(), "thumbnails")
}

/// The directory of a video's own files: the one that the video lies in, when it is
/// there and belongs to the library, otherwise the directory of the other pictures.
pub fn get_video_assets_dir(
    video_path: &str,
    exists: bool,
    library_dir: &str,
    thumbnail_dir: &str,
) -> (dir: String)
    ensures
        if is_under(video_path@, library_dir@) && exists && has_parent(video_path@) {
            components(dir@) == components(video_path@).drop_last()
        } else {
            dir@ == thumbnail_dir@
        },
{
    if path_starts_with(video_path, library_dir) && exists {
        if let Some(parent) = path_parent(video_path) {
            return parent;
        }
    }
    thumbnail_dir.to_owned()
}

/// Videos and pictures lie side by side in the program's directory among the user's data: in
/// the data directory when there is one, otherwise in the usual place under the home directory.
pub proof fn law_library_is_among_the_data(dir: Seq<char>, home: Option<Seq<char>>)
    ensures
        library_dir_of(Some(dir), home) == joined(joined(dir, "cinnamon-wallpaper"@), "videos"@),
        thumbnail_dir_of(Some(dir), home) == joined(
            joined(dir, "cinnamon-wallpaper"@),
            "thumbnails"@,
        ),
        home matches Some(h) ==> library_dir_of(None, home) == library_dir_of(
            Some(joined(h, ".local/share"@)),
            None,
        ) && thumbnail_dir_of(None, home) == thumbnail_dir_of(
            Some(joined(h, ".local/share"@)),
            None,
        ),
        library_dir_of(None, None) == library_dir_of(Some(".local/share"@), None),
        thumbnail_dir_of(None, None) == thumbnail_dir_of(Some(".local/share"@), None),
{
    reveal_strlit(".local/share");
    assert(joined(Seq::<char>::empty(), ".local/share"@) =~= ".local/share"@);
}

// Formats.

/// The extensions of video files.
pub open spec fn is_video_extension(ext: Seq<char>) -> bool {
    ext == "mp4"@ || ext == "avi"@ || ext == "mkv"@ || ext == "webm"@ || ext == "mov"@ || ext
        == "wmv"@ || ext == "flv"@ || ext == "m4v"@
}

/// A path leads to a video: its extension, in lower case, is one of those.
pub open spec fn is_video(path: Seq<char>) -> bool {
    extension(path) matches Some(ext) && is_video_extension(lowercase(ext))
}

/// Eight extensions are those of videos, and no other is. A path without an extension leads to
/// no video.
pub proof fn law_eight_formats_are_videos(ext: Seq<char>, path: Seq<char>)
    ensures
        is_video_extension(ext) <==> seq![
            "avi"@,
            "flv"@,
            "m4v"@,
            "mkv"@,
            "mov"@,
            "mp4"@,
            "webm"@,
            "wmv"@,
        ].contains(ext),
        extension(path) is None ==> !is_video(path),
        extension(path) matches Some(e) ==> (is_video(path) <==> is_video_extension(lowercase(e))),
{
    let all = seq!["avi"@, "flv"@, "m4v"@, "mkv"@, "mov"@, "mp4"@, "webm"@, "wmv"@];
    assert(all[0] == "avi"@);
    assert(all[1] == "flv"@);
    assert(all[2] == "m4v"@);
    assert(all[3] == "mkv"@);
    assert(all[4] == "mov"@);
    assert(all[5] == "mp4"@);
    assert(all[6] == "webm"@);
    assert(all[7] == "wmv"@);
}

/// Whether a lower case extension is that of a video file.
pub fn video_extension(lowered: &str) -> (r: bool)
    ensures
        r == is_video_extension(lowered@),
{
    same_text(lowered, "mp4") || same_text(lowered, "avi") || same_text(lowered, "mkv")
        || same_text(lowered, "webm") || same_text(lowered, "mov") || same_text(lowered, "wmv")
        || same_text(lowered, "flv") || same_text(lowered, "m4v")
}

/// Whether a path leads to a video, by its extension; capital letters do not
/// matter.
pub fn is_supported_video_format(path: &str) -> (r: bool)
    ensures
        r == is_video(path@),
        extension(path@) matches Some(ext) ==> (ascii_only(ext) ==> r == is_video_extension(
            ext.map_values(|c: char| ascii_lower(c)),
        )),
{
    match path_extension(path) {
        Some(ext) => {
            let lowered = lowercase_text(ext.as_str());
            video_extension(lowered.as_str())
        },
        None => false,
    }
}

/// The patterns that a file dialog offers for videos.
pub fn video_patterns() -> (patterns: Vec<String>)
    ensures
        texts(patterns@) == seq![
            "*.mp4"@,
            "*.avi"@,
            "*.mkv"@,
            "*.webm"@,
            "*.mov"@,
            "*.wmv"@,
            "*.flv"@,
            "*.m4v"@,
            "*.MP4"@,
            "*.AVI"@,
            "*.MKV"@,
            "*.WEBM"@,
            "*.MOV"@,
            "*.WMV"@,
            "*.FLV"@,
            "*.M4V"@,
        ],
{
    let patterns = vec![
        "*.mp4".to_owned(),
        "*.avi".to_owned(),
        "*.mkv".to_owned(),
        "*.webm".to_owned(),
        "*.mov".to_owned(),
        "*.wmv".to_owned(),
        "*.flv".to_owned(),
        "*.m4v".to_owned(),
        "*.MP4".to_owned(),
        "*.AVI".to_owned(),
        "*.MKV".to_owned(),
        "*.WEBM".to_owned(),
        "*.MOV".to_owned(),
        "*.WMV".to_owned(),
        "*.FLV".to_owned(),
        "*.M4V".to_owned(),
    ];
    assert(texts(patterns@) =~= seq![
        "*.mp4"@,
        "*.avi"@,
        "*.mkv"@,
        "*.webm"@,
        "*.mov"@,
        "*.wmv"@,
        "*.flv"@,
        "*.m4v"@,
        "*.MP4"@,
        "*.AVI"@,
        "*.MKV"@,
        "*.WEBM"@,
        "*.MOV"@,
        "*.WMV"@,
        "*.FLV"@,
        "*.M4V"@,
    ]);
    patterns
}

/// A file or directory that was found.
#[derive(Debug)]
pub struct FoundEntry {
    pub path: String,
    pub is_file: bool,
}

/// The paths of the entries.
pub open spec fn entry_paths(entries: Seq<FoundEntry>) -> Seq<Seq<char>> {
    entries.map_values(|e: FoundEntry| e.path@)
}

/// The videos among what was found: in the library only files count, elsewhere
/// everything with a video's name.
pub open spec fn videos_among(
    library: Seq<FoundEntry>,
    others: Seq<String>,
) -> Seq<Seq<char>> {
    entry_paths(library.filter(|e: FoundEntry| e.is_file && is_video(e.path@))) + texts(others).filter(
        |p: Seq<char>| is_video(p),
    )
}

/// What is found is gone through in order, the library first: every file of the library and
/// everything elsewhere that is a video by its name is taken, and nothing else is.
pub proof fn law_every_video_is_shown(
    library: Seq<FoundEntry>,
    entry: FoundEntry,
    others: Seq<String>,
    other: String,
)
    ensures
        videos_among(Seq::<FoundEntry>::empty(), Seq::<String>::empty()).len() == 0,
        videos_among(library, others) == videos_among(library, Seq::<String>::empty())
            + videos_among(Seq::<FoundEntry>::empty(), others),
        videos_among(library.push(entry), Seq::<String>::empty()) == videos_among(
            library,
            Seq::<String>::empty(),
        ) + (if entry.is_file && is_video(entry.path@) {
            seq![entry.path@]
        } else {
            Seq::<Seq<char>>::empty()
        }),
        videos_among(Seq::<FoundEntry>::empty(), others.push(other)) == videos_among(
            Seq::<FoundEntry>::empty(),
            others,
        ) + (if is_video(other@) {
            seq![other@]
        } else {
            Seq::<Seq<char>>::empty()
        }),
{
    reveal(Seq::filter);
    let in_library = |e: FoundEntry| e.is_file && is_video(e.path@);
    let elsewhere = |p: Seq<char>| is_video(p);
    let none = Seq::<FoundEntry>::empty();
    let no_other = Seq::<String>::empty();
    assert(texts(no_other) =~= Seq::<Seq<char>>::empty());
    assert(entry_paths(none.filter(in_library)) =~= Seq::<Seq<char>>::empty());
    assert(texts(no_other).filter(elsewhere) =~= Seq::<Seq<char>>::empty());
    assert(library.push(entry).drop_last() =~= library);
    assert(texts(others.push(other)) =~= texts(others).push(other@));
    assert(texts(others).push(other@).drop_last() =~= texts(others));
    assert(videos_among(library, others) =~= videos_among(library, no_other) + videos_among(
        none,
        others,
    ));
    let found = library.filter(in_library);
    if entry.is_file && is_video(entry.path@) {
        assert(library.push(entry).filter(in_library) =~= found.push(entry));
        assert(entry_paths(found.push(entry)) =~= entry_paths(found) + seq![entry.path@]);
    }
    assert(videos_among(library.push(entry), no_other) =~= videos_among(library, no_other) + (
    if entry.is_file && is_video(entry.path@) {
        seq![entry.path@]
    } else {
        Seq::<Seq<char>>::empty()
    }));
    assert(videos_among(none, others.push(other)) =~= videos_among(none, others) + (if is_video(
        other@,
    ) {
        seq![other@]
    } else {
        Seq::<Seq<char>>::empty()
    }));
}

fn library_videos(library: &Vec<FoundEntry>) -> (videos: Vec<String>)
    ensures
        texts(videos@) == entry_paths(
            library@.filter(|e: FoundEntry| e.is_file && is_video(e.path@)),
        ),
{
    let mut videos: Vec<String> = Vec::new();
    let ghost wanted = |e: FoundEntry| e.is_file && is_video(e.path@);
    proof {
        reveal(Seq::filter);
        assert(texts(videos@) =~= entry_paths(library@.take(0).filter(wanted)));
    }
    for i in 0..library.len()
        invariant
            wanted == (|e: FoundEntry| e.is_file && is_video(e.path@)),
            texts(videos@) == entry_paths(library@.take(i as int).filter(wanted)),
    {
        let ghost before = texts(videos@);
        let ghost shorter = library@.take(i as int).filter(wanted);
        proof {
            reveal(Seq::filter);
            assert(library@.take(i + 1).drop_last() =~= library@.take(i as int));
        }
        if library[i].is_file && is_supported_video_format(library[i].path.as_str()) {
            videos.push(library[i].path.clone());
            assert(library@.take(i + 1).filter(wanted) =~= shorter.push(library@[i as int]));
            assert(texts(videos@) =~= before.push(library@[i as int].path@));
            assert(entry_paths(shorter.push(library@[i as int])) =~= entry_paths(shorter).push(
                library@[i as int].path@,
            ));
        }
    }
    assert(library@.take(library@.len() as int) =~= library@);
    videos
}

/// The videos to show: those of the library, then those elsewhere.
pub fn find_existing_videos(library: &Vec<FoundEntry>, others: &Vec<String>) -> (videos: Vec<String>)
    ensures
        texts(videos@) == videos_among(library@, others@),
{
    let mut videos = library_videos(library);
    let ghost first = texts(videos@);
    let ghost parts = texts(others@);
    let ghost wanted = |p: Seq<char>| is_video(p);
    proof {
        reveal(Seq::filter);
        assert(texts(videos@) =~= first + parts.take(0).filter(wanted));
    }
    for i in 0..others.len()
        invariant
            parts == texts(others@),
            wanted == (|p: Seq<char>| is_video(p)),
            texts(videos@) == first + parts.take(i as int).filter(wanted),
    {
        let ghost before = texts(videos@);
        proof {
            reveal(Seq::filter);
            assert(parts.take(i + 1).drop_last() =~= parts.take(i as int));
        }
        if is_supported_video_format(others[i].as_str()) {
            videos.push(others[i].clone());
            assert(texts(videos@) =~= before.push(parts[i as int]));
            assert(texts(videos@) =~= first + parts.take(i + 1).filter(wanted));
        }
    }
    assert(parts.take(parts.len() as int) =~= parts);
    videos
}

// Names that depend on a video's path.

/// `data` is what `Path::hash` writes to a hasher for `path`, in the order in which it
/// writes it, on one machine or another. What that is may differ between platforms
/// and releases, so one path can have several.
pub uninterp spec fn path_hash_data(path: Seq<char>, data: Seq<Seq<u8>>) -> bool;

/// `Path::hash`: feeds the path to the hasher, which keeps what it was fed before.
/// What is fed is the path's hash data; nothing is said of what that looks like, nor
/// that it is the same everywhere.
#[verifier::external_body]
fn feed_path(path: &str, hasher: &mut DefaultHasher)
    ensures
        old(hasher)@.is_prefix_of(final(hasher)@),
        path_hash_data(path@, final(hasher)@.skip(old(hasher)@.len() as int)),
{
    Path::new(path).hash(hasher);
}

/// `number` is what a new hasher makes of the hash data of `path` and nothing else.
pub open spec fn is_path_number(path: Seq<char>, number: u64) -> bool {
    exists|data: Seq<Seq<u8>>| #[trigger]
        path_hash_data(path, data) && number == DefaultHasher::spec_finish(data)
}

/// The number of a path is made of the path alone: of hash data of the path, all of it, by a
/// hasher that was fed nothing else.
pub proof fn law_number_is_made_of_the_path(path: Seq<char>, number: u64, data: Seq<Seq<u8>>)
    ensures
        path_hash_data(path, data) ==> is_path_number(path, DefaultHasher::spec_finish(data)),
        is_path_number(path, number) ==> exists|made_of: Seq<Seq<u8>>| #[trigger]
            path_hash_data(path, made_of) && number == DefaultHasher::spec_finish(made_of),
{
}

/// A number for a video's path: what a new hasher makes of the path. That a path has
/// the same number wherever the same build of the program runs is not stated.
fn path_number(path: &str) -> (number: u64)
    ensures
        is_path_number(path@, number),
{
    let mut hasher = DefaultHasher::new();
    feed_path(path, &mut hasher);
    assert(hasher@.skip(0) =~= hasher@);
    hasher.finish()
}

/// The file name of a video's picture, for the number of its path.
pub open spec fn thumbnail_name_of(number: u64) -> Seq<char> {
    "thumb_"@ + hexadecimal(number as nat) + ".png"@
}

/// The file name of a video's picture, for the number of its path.
pub fn thumbnail_name(number: u64) -> (name: String)
    ensures
        name@ == thumbnail_name_of(number),
{
    "thumb_".to_owned().concat(hexadecimal_text(number).as_str()).concat(".png")
}

/// The file name of a video's picture.
pub fn thumbnail_file_name(video_path: &str) -> (name: String)
    ensures
        exists|number: u64| #[trigger]
            is_path_number(video_path@, number) && name@ == thumbnail_name_of(number),
{
    let number: u64 = path_number(video_path);
    thumbnail_name(number)
}

/// The common beginning of the names of a video's preview frames, for the number of
/// its path.
pub open spec fn preview_base_of(number: u64) -> Seq<char> {
    "preview_"@ + hexadecimal(number as nat)
}

/// The common beginning of the names of a video's preview frames, for the number of
/// its path.
pub fn preview_base(number: u64) -> (base: String)
    ensures
        base@ == preview_base_of(number),
{
    "preview_".to_owned().concat(hexadecimal_text(number).as_str())
}

/// The common beginning of the names of a video's preview frames.
pub fn preview_base_name(video_path: &str) -> (base: String)
    ensures
        exists|number: u64| #[trigger]
            is_path_number(video_path@, number) && base@ == preview_base_of(number),
{
    let number: u64 = path_number(video_path);
    preview_base(number)
}

/// The name of a directory for one video, for the number of its path.
pub open spec fn numbered_name_of(stem: Seq<char>, number: u64) -> Seq<char> {
    stem + "_"@ + hexadecimal(number as nat)
}

/// The name of a directory for one video, for the number of its path.
pub fn numbered_name(stem: &str, number: u64) -> (name: String)
    ensures
        name@ == numbered_name_of(stem@, number),
{
    stem.to_owned().concat("_").concat(hexadecimal_text(number).as_str())
}

/// The name of a directory for one video: the stem and the number of the path.
pub fn numbered_directory(stem: &str, video_path: &str) -> (name: String)
    ensures
        exists|number: u64| #[trigger]
            is_path_number(video_path@, number) && name@ == numbered_name_of(stem@, number),
{
    let number: u64 = path_number(video_path);
    numbered_name(stem, number)
}

/// Names that depend on the number of a path hold the whole number: different numbers give
/// different pictures, previews and directories.
pub proof fn law_each_number_has_its_names(stem: Seq<char>, a: u64, b: u64)
    ensures
        thumbnail_name_of(a) == "thumb_"@ + hexadecimal(a as nat) + ".png"@,
        preview_base_of(a) == "preview_"@ + hexadecimal(a as nat),
        numbered_name_of(stem, a) == stem + "_"@ + hexadecimal(a as nat),
        a != b ==> thumbnail_name_of(a) != thumbnail_name_of(b),
        a != b ==> preview_base_of(a) != preview_base_of(b),
        a != b ==> numbered_name_of(stem, a) != numbered_name_of(stem, b),
{
    reveal_strlit("thumb_");
    reveal_strlit(".png");
    reveal_strlit("preview_");
    reveal_strlit("_");
    let x = hexadecimal(a as nat);
    let y = hexadecimal(b as nat);
    let n = thumbnail_name_of(a);
    let m = thumbnail_name_of(b);
    assert(n.subrange(6, n.len() - 4) =~= x);
    assert(m.subrange(6, m.len() - 4) =~= y);
    assert(preview_base_of(a).skip(8) =~= x);
    assert(preview_base_of(b).skip(8) =~= y);
    assert(numbered_name_of(stem, a).skip(stem.len() as int + 1) =~= x);
    assert(numbered_name_of(stem, b).skip(stem.len() as int + 1) =~= y);
    if x == y {
        law_hexadecimal_injective(a as nat, b as nat);
    }
}

// Adding a video.

/// Why a video could not be added.
#[derive(Debug)]
pub enum LibraryError {
    /// The library directory cannot be made.
    NoLibrary(String),
    /// The path leads to no file.
    NoFileName,
    /// The file's name is no text.
    NoStem,
    /// The directory for the video cannot be made.
    NoDirectory(String),
    /// The file cannot be copied.
    CopyFailed(String),
}

/// The message for an error.
pub open spec fn library_error_text(e: LibraryError) -> Seq<char> {
    match e {
        LibraryError::NoLibrary(e) => "No se pudo crear el directorio de biblioteca: "@ + e@,
        LibraryError::NoFileName => "Nombre de archivo inválido"@,
        LibraryError::NoStem => "Stem inválido"@,
        LibraryError::NoDirectory(e) => "No se pudo crear la carpeta del video: "@ + e@,
        LibraryError::CopyFailed(e) => "Error copiando archivo: "@ + e@,
    }
}

impl LibraryError {
    /// The message to show for this error.
    pub fn message(&self) -> (text: String)
        ensures
            text@ == library_error_text(*self),
    {
        match self {
            LibraryError::NoLibrary(e) => "No se pudo crear el directorio de biblioteca: ".to_owned().concat(
                e.as_str(),
            ),
            LibraryError::NoFileName => "Nombre de archivo inválido".to_owned(),
            LibraryError::NoStem => "Stem inválido".to_owned(),
            LibraryError::NoDirectory(e) => "No se pudo crear la carpeta del video: ".to_owned().concat(
                e.as_str(),
            ),
            LibraryError::CopyFailed(e) => "Error copiando archivo: ".to_owned().concat(e.as_str()),
        }
    }
}

/// Where a video goes in the library.
#[derive(Debug)]
pub struct CopyPlan {
    /// The directory that the video gets for itself.
    pub directory: String,
    /// The video's new path.
    pub destination: String,
}

/// What is left to do to have a video in the library.
#[derive(Debug)]
pub enum CopyStep {
    /// A copy is there already: it is kept as it is.
    Keep,
    /// The file is to be copied.
    Copy { source: String, destination: String },
}

/// What is left to do, as plain values.
pub enum CopyStepView {
    Keep,
    Copy(Seq<char>, Seq<char>),
}

impl View for CopyStep {
    type V = CopyStepView;

    open spec fn view(&self) -> CopyStepView {
        match *self {
            CopyStep::Keep => CopyStepView::Keep,
            CopyStep::Copy { source, destination } => CopyStepView::Copy(source@, destination@),
        }
    }
}

/// What is left to do is seen as it is: with both paths of a copy.
pub proof fn law_copy_is_seen_as_it_is(source: String, destination: String)
    ensures
        CopyStep::Keep@ == CopyStepView::Keep,
        (CopyStep::Copy { source, destination })@ == CopyStepView::Copy(source@, destination@),
{
}

/// What is left to do: a copy that is there is kept.
pub open spec fn copy_step_of(
    source: Seq<char>,
    destination: Seq<char>,
    destination_exists: bool,
) -> CopyStepView {
    if destination_exists {
        CopyStepView::Keep
    } else {
        CopyStepView::Copy(source, destination)
    }
}

impl CopyPlan {
    /// What is left to do for a video, given whether its new path is taken already.
    pub fn copy_step(&self, source: &str, destination_exists: bool) -> (step: CopyStep)
        ensures
            step@ == copy_step_of(source@, self.destination@, destination_exists),
    {
        if destination_exists {
            CopyStep::Keep
        } else {
            CopyStep::Copy { source: source.to_owned(), destination: self.destination.clone() }
        }
    }

    /// What adding the video came to: its new path, unless the file had to be copied and
    /// could not be; `failure` tells why.
    pub fn copied(self, failure: Option<String>) -> (r: Result<String, LibraryError>)
        ensures
            match failure {
                None => r matches Ok(path) && path@ == self.destination@,
                Some(e) => r == Err::<String, LibraryError>(LibraryError::CopyFailed(e)),
            },
    {
        match failure {
            None => Ok(self.destination),
            Some(e) => Err(LibraryError::CopyFailed(e)),
        }
    }
}

/// The contents of the files after the step was taken; `files` gives what each path holds.
pub open spec fn files_after(files: Map<Seq<char>, Seq<u8>>, step: CopyStepView) -> Map<
    Seq<char>,
    Seq<u8>,
> {
    match step {
        CopyStepView::Keep => files,
        CopyStepView::Copy(source, destination) => files.insert(destination, files[source]),
    }
}

/// The contents of the files after the file at `source` was added as `destination`.
pub open spec fn files_with_video(
    files: Map<Seq<char>, Seq<u8>>,
    source: Seq<char>,
    destination: Seq<char>,
) -> Map<Seq<char>, Seq<u8>> {
    files_after(
        files,
        copy_step_of(source, destination, files.dom().contains(destination)),
    )
}

/// Adding a file changes no file that is there, neither the file itself nor a copy made
/// before; where there was no copy, there is one with the file's contents.
pub proof fn law_adding_overwrites_nothing(
    files: Map<Seq<char>, Seq<u8>>,
    source: Seq<char>,
    destination: Seq<char>,
    path: Seq<char>,
)
    requires
        files.dom().contains(source),
    ensures
        ({
            let after = files_with_video(files, source, destination);
            &&& files.dom().contains(path) ==> after.dom().contains(path) && after[path]
                == files[path]
            &&& after.dom().contains(destination)
            &&& !files.dom().contains(destination) ==> after[destination] == files[source]
        }),
{
}

/// Adding a file again leads to the same path, and as long as the copy is there nothing
/// changes, whatever has become of the file itself meanwhile.
pub proof fn law_copy_is_kept(
    first: CopyPlan,
    again: CopyPlan,
    source: Seq<char>,
    number: u64,
    library_dir: Seq<char>,
    files: Map<Seq<char>, Seq<u8>>,
)
    requires
        file_name(source) is Some,
        is_copy_plan(
            first,
            source,
            numbered_name_of(file_stem(source)->Some_0, number),
            library_dir,
        ),
        is_copy_plan(
            again,
            source,
            numbered_name_of(file_stem(source)->Some_0, number),
            library_dir,
        ),
        files.dom().contains(first.destination@),
    ensures
        again.destination@ == first.destination@,
        files_with_video(files, source, again.destination@) == files,
{
}

/// Where a video goes in the library, for the name of its directory: into that
/// directory, under its own name.
pub open spec fn is_copy_plan(
    plan: CopyPlan,
    source: Seq<char>,
    folder: Seq<char>,
    library_dir: Seq<char>,
) -> bool {
    &&& plan.directory@ == joined(library_dir, folder)
    &&& file_name(source) matches Some(name) && plan.destination@ == joined(
        plan.directory@,
        name,
    )
}

/// A copy that is there is kept; otherwise the file itself is copied to just the planned path.
pub proof fn law_missing_copy_is_made(source: Seq<char>, destination: Seq<char>, there: bool)
    ensures
        copy_step_of(source, destination, there) == CopyStepView::Keep <==> there,
        !there ==> copy_step_of(source, destination, there) == CopyStepView::Copy(
            source,
            destination,
        ),
{
}

/// A video goes under its own name into the directory that it gets in the library.
pub proof fn law_video_keeps_its_name(
    plan: CopyPlan,
    source: Seq<char>,
    folder: Seq<char>,
    library_dir: Seq<char>,
)
    ensures
        is_copy_plan(plan, source, folder, library_dir) <==> file_name(source) is Some
            && plan.directory@ == joined(library_dir, folder) && plan.destination@ == joined(
            joined(library_dir, folder),
            file_name(source)->Some_0,
        ),
{
}

/// The complaint about a video that could not be added gives the reason that the system gave.
pub proof fn law_library_error_gives_its_reason(reason: String)
    ensures
        library_error_text(LibraryError::NoLibrary(reason))
            == "No se pudo crear el directorio de biblioteca: "@ + reason@,
        library_error_text(LibraryError::NoDirectory(reason))
            == "No se pudo crear la carpeta del video: "@ + reason@,
        library_error_text(LibraryError::CopyFailed(reason)) == "Error copiando archivo: "@
            + reason@,
{
}

/// Where a video goes in the library: into a directory of its own, named after its
/// stem and the number of its path.
pub fn copy_video_to_library(source: &str, library_dir: &str) -> (plan: Result<
    CopyPlan,
    LibraryError,
>)
    ensures
        plan is Ok <==> file_name(source@) is Some,
        plan matches Err(e) ==> e == LibraryError::NoFileName,
        plan matches Ok(p) ==> exists|number: u64| #[trigger]
            is_path_number(source@, number) && is_copy_plan(
                p,
                source@,
                numbered_name_of(file_stem(source@)->Some_0, number),
                library_dir@,
            ),
{
    let number: u64 = path_number(source);
    copy_plan(source, number, library_dir)
}

/// Where a video goes in the library, for the number of its path.
pub fn copy_plan(source: &str, number: u64, library_dir: &str) -> (plan: Result<
    CopyPlan,
    LibraryError,
>)
    ensures
        plan is Ok <==> file_name(source@) is Some,
        plan matches Err(e) ==> e == LibraryError::NoFileName,
        plan matches Ok(p) ==> is_copy_plan(
            p,
            source@,
            numbered_name_of(file_stem(source@)->Some_0, number),
            library_dir@,
        ),
{
    let name = match path_file_name(source) {
        Some(name) => name,
        None => return Err(LibraryError::NoFileName),
    };
    let stem = match path_file_stem(source) {
        Some(stem) => stem,
        None => return Err(LibraryError::NoFileName),
    };
    let folder = numbered_name(stem.as_str(), number);
    let directory = join_path(library_dir, folder.as_str());
    let destination = join_path(directory.as_str(), name.as_str());
    Ok(CopyPlan { directory, destination })
}

/// A video that was added lies in the library, in a directory of its own: the one
/// that was made for it.
pub proof fn law_added_video_has_its_own_directory(
    plan: CopyPlan,
    source: Seq<char>,
    number: u64,
    library_dir: Seq<char>,
)
    requires
        file_name(source) is Some,
        is_copy_plan(
            plan,
            source,
            numbered_name_of(file_stem(source)->Some_0, number),
            library_dir,
        ),
    ensures
        is_under(plan.destination@, library_dir),
        has_parent(plan.destination@),
        components(plan.destination@).drop_last() == components(plan.directory@),
        components(plan.directory@).drop_last() == components(library_dir),
        file_name(plan.destination@) == file_name(source),
{
    let name = file_name(source)->Some_0;
    let stem = file_stem(source)->Some_0;
    let folder = numbered_name_of(stem, number);
    lemma_file_name(source);
    lemma_stem_has_no_slash(source);
    lemma_numbered_name(stem, number);
    lemma_components_join(library_dir, folder);
    lemma_components_join(plan.directory@, name);
    let l = components(library_dir);
    assert(components(plan.destination@).drop_last() =~= components(plan.directory@));
    assert(components(plan.directory@).drop_last() =~= l);
    assert(l =~= components(plan.destination@).take(l.len() as int));
}

/// Removing a video that was added removes exactly the directory that adding it
/// made, when that is there.
pub proof fn law_removing_undoes_adding(
    plan: CopyPlan,
    source: Seq<char>,
    number: u64,
    library_dir: Seq<char>,
    directory: Seq<char>,
)
    requires
        file_name(source) is Some,
        is_copy_plan(
            plan,
            source,
            numbered_name_of(file_stem(source)->Some_0, number),
            library_dir,
        ),
        components(directory) == components(plan.destination@).drop_last(),
    ensures
        is_under(plan.destination@, library_dir),
        same_path(directory, plan.directory@),
        !same_path(directory, library_dir),
{
    law_added_video_has_its_own_directory(plan, source, number, library_dir);
    assert(components(directory).len() == components(library_dir).len() + 1) by {
        let stem = file_stem(source)->Some_0;
        lemma_stem_has_no_slash(source);
        lemma_numbered_name(stem, number);
        lemma_components_join(library_dir, numbered_name_of(stem, number));
    }
}

/// The stem of a path's file name holds no slash.
pub proof fn lemma_stem_has_no_slash(path: Seq<char>)
    requires
        file_name(path) is Some,
    ensures
        file_stem(path) is Some,
        forall|i: int|
            0 <= i < file_stem(path)->Some_0.len() ==> #[trigger] file_stem(path)->Some_0[i] != '/',
{
    let name = file_name(path)->Some_0;
    let stem = file_stem(path)->Some_0;
    lemma_file_name(path);
    assert forall|i: int| 0 <= i < stem.len() implies #[trigger] stem[i] != '/' by {
        assert(name.contains(name[i]));
        assert(stem[i] == name[i]);
    }
}

proof fn lemma_hexadecimal_chars(n: nat)
    ensures
        forall|i: int| 0 <= i < hexadecimal(n).len() ==> #[trigger] hexadecimal(n)[i] != '/',
    decreases n,
{
    let s = hexadecimal(n);
    if n >= 16 {
        lemma_hexadecimal_chars(n / 16);
    }
    assert forall|i: int| 0 <= i < s.len() implies #[trigger] s[i] != '/' by {
        if n >= 16 && i < s.len() - 1 {
            assert(s[i] == hexadecimal(n / 16)[i]);
        } else {
            assert(s[i] == hex_char(n % 16));
        }
    }
}

/// The name of a directory for one video is a proper name whenever its stem holds no
/// slash.
pub proof fn lemma_numbered_name(stem: Seq<char>, number: u64)
    requires
        forall|i: int| 0 <= i < stem.len() ==> stem[i] != '/',
    ensures
        is_proper_name(numbered_name_of(stem, number)),
{
    let name = numbered_name_of(stem, number);
    let digits = hexadecimal(number as nat);
    reveal_strlit("_");
    lemma_hexadecimal_chars(number as nat);
    assert(name[stem.len() as int] == '_');
    assert forall|i: int| 0 <= i < name.len() implies name[i] != '/' by {
        if i > stem.len() {
            assert(name[i] == digits[i - stem.len() - 1]);
        }
    }
    let one = seq!['.'];
    let two = seq!['.', '.'];
    assert(stem.len() < name.len());
    assert(forall|i: int| 0 <= i < one.len() ==> one[i] == '.');
    assert(forall|i: int| 0 <= i < two.len() ==> two[i] == '.');
}

// Removing a video.

/// What removing a video removes.
#[derive(Debug)]
pub enum Removal {
    /// A directory with everything in it.
    Directory(String),
    /// One file.
    File(String),
}

/// Whether a video can be removed: only one of the library can.
pub fn can_delete(video_path: &str, library_dir: &str) -> (r: bool)
    ensures
        r == is_under(video_path@, library_dir@),
{
    path_starts_with(video_path, library_dir)
}

/// The directory that removing a video concerns: the one that it lies in.
pub fn removal_directory(video_path: &str, library_dir: &str) -> (dir: String)
    ensures
        if has_parent(video_path@) {
            components(dir@) == components(video_path@).drop_last()
        } else {
            dir@ == library_dir@
        },
{
    match path_parent(video_path) {
        Some(parent) => parent,
        None => library_dir.to_owned(),
    }
}

/// What removing a video removes, given its directory and whether that is there:
/// the directory, which is the video's own, unless it is the library itself.
pub fn removal(video_path: &str, directory: &str, directory_exists: bool, library_dir: &str) -> (r:
    Removal)
    ensures
        if directory_exists && !same_path(directory@, library_dir@) {
            r matches Removal::Directory(d) && d@ == directory@
        } else {
            r matches Removal::File(f) && f@ == video_path@
        },
{
    if directory_exists && !path_eq(directory, library_dir) {
        Removal::Directory(directory.to_owned())
    } else {
        Removal::File(video_path.to_owned())
    }
}

/// Removing a video of the library removes nothing outside the library, and never
/// the library itself: a directory that is removed lies inside the library.
pub proof fn law_removal_stays_in_the_library(
    video: Seq<char>,
    directory: Seq<char>,
    library: Seq<char>,
)
    requires
        is_under(video, library),
        !same_path(video, library),
        has_parent(video),
        components(directory) == components(video).drop_last(),
        !same_path(directory, library),
    ensures
        is_under(directory, library),
        components(directory).len() > components(library).len(),
        is_under(video, directory),
{
    let v = components(video);
    let l = components(library);
    let d = components(directory);
    assert(l =~= v.take(l.len() as int));
    if l.len() == v.len() {
        assert(l =~= v);
    }
    assert(l =~= d.take(l.len() as int));
    assert(l.is_prefix_of(d));
    if d.len() == l.len() {
        assert(d =~= l);
    }
    assert(d =~= v.take(d.len() as int));
}

// What the cards say.

/// The state that a video's name tells of.
pub open spec fn badge_text(name: Seq<char>) -> Seq<char> {
    if contains_seq(name, "_optimizado"@) {
        "⚡ Optimizado"@
    } else {
        "📀 Original"@
    }
}

/// The badge for a video: optimized or original, by its name.
pub fn badge_state_text(filename: &str) -> (text: String)
    ensures
        text@ == badge_text(filename@),
{
    if contains_text(filename, "_optimizado") {
        "⚡ Optimizado".to_owned()
    } else {
        "📀 Original".to_owned()
    }
}

/// A video counts as optimized exactly when its name has the mark somewhere in it.
pub proof fn law_mark_tells_optimized_videos(before: Seq<char>, after: Seq<char>, name: Seq<char>)
    ensures
        badge_text(before + "_optimizado"@ + after) == "⚡ Optimizado"@,
        !(exists|a: Seq<char>, b: Seq<char>| name == #[trigger] (a + "_optimizado"@ + b))
            ==> badge_text(name) == "📀 Original"@,
{
    law_pattern_is_found(before, "_optimizado"@, after);
    if contains_seq(name, "_optimizado"@) {
        law_found_pattern_is_there(name, "_optimizado"@);
    }
}

/// The title of a video's card.
pub fn card_title(video_path: &str) -> (title: String)
    ensures
        title@ == match file_stem(video_path@) {
            Some(stem) => stem,
            None => "Video sin nombre"@,
        },
{
    match path_file_stem(video_path) {
        Some(stem) => stem,
        None => "Video sin nombre".to_owned(),
    }
}

/// The height of a video, from what the probe printed.
pub open spec fn height_label_of(success: bool, output: Seq<char>) -> Option<Seq<char>> {
    if success && trimmed(output).len() > 0 {
        Some(trimmed(output))
    } else {
        None
    }
}

/// The height of a video as text, from what the probe printed; none when the probe
/// failed or printed nothing.
pub fn get_video_height_label(success: bool, output: &Vec<u8>) -> (label: Option<String>)
    ensures
        opt_text(label) == height_label_of(success, lossy_utf8(output@)),
        valid_utf8(output@) ==> opt_text(label) == height_label_of(success, decode_utf8(output@)),
{
    let text = lossy_text(output.as_slice());
    height_label(success, text.as_str())
}

/// The height of a video as text, from the text that the probe printed.
pub fn height_label(success: bool, output: &str) -> (label: Option<String>)
    ensures
        opt_text(label) == height_label_of(success, output@),
{
    let label = trim_text(output);
    if success && !label.as_str().is_empty() {
        Some(label)
    } else {
        None
    }
}

/// The height is what the probe printed, without the white space around it; it is unknown when
/// the probe failed or printed nothing else.
pub proof fn law_height_is_what_the_probe_printed(
    before: Seq<char>,
    height: Seq<char>,
    after: Seq<char>,
)
    requires
        forall|i: int| 0 <= i < before.len() ==> is_whitespace(#[trigger] before[i]),
        forall|i: int| 0 <= i < after.len() ==> is_whitespace(#[trigger] after[i]),
        height.len() > 0 ==> !is_whitespace(height[0]) && !is_whitespace(height.last()),
    ensures
        height_label_of(true, before + height + after) == if height.len() > 0 {
            Some(height)
        } else {
            None
        },
        height_label_of(false, before + height + after) is None,
{
    law_trimming_finds_the_core(before, height, after);
}

/// The arguments of the probe for a video's height.
pub fn height_probe_arguments(video_path: &str) -> (args: Vec<String>)
    ensures
        texts(args@) == seq![
            "-v"@,
            "error"@,
            "-select_streams"@,
            "v:0"@,
            "-show_entries"@,
            "stream=height"@,
            "-of"@,
            "csv=p=0"@,
            video_path@,
        ],
{
    let args = vec![
        "-v".to_owned(),
        "error".to_owned(),
        "-select_streams".to_owned(),
        "v:0".to_owned(),
        "-show_entries".to_owned(),
        "stream=height".to_owned(),
        "-of".to_owned(),
        "csv=p=0".to_owned(),
        video_path.to_owned(),
    ];
    assert(texts(args@) =~= seq![
        "-v"@,
        "error"@,
        "-select_streams"@,
        "v:0"@,
        "-show_entries"@,
        "stream=height"@,
        "-of"@,
        "csv=p=0"@,
        video_path@,
    ]);
    args
}

/// What a card says about a video of the given size: size, height and format; or
/// that nothing is known when the size is below a megabyte.
pub open spec fn info_text_of(size: u64, height: Seq<char>, format: Seq<char>) -> Seq<char> {
    let megabytes = size / 1048576;
    if megabytes > 0 {
        "📏 Tamaño: "@ + decimal(megabytes as nat) + " MB  |  📐 "@ + height + "p  |  🎬 "@ + format
    } else {
        "ℹ️ Información no disponible"@
    }
}

/// The size of a file, none when it cannot be read.
pub open spec fn size_or_zero(size: Option<u64>) -> u64 {
    match size {
        Some(s) => s,
        None => 0,
    }
}

/// The label of something that may not be known.
pub open spec fn label_or_unknown(label: Option<Seq<char>>) -> Seq<char> {
    match label {
        Some(text) => text,
        None => "?"@,
    }
}

/// A card gives the size of a video in whole megabytes, with its height and its format; below
/// one megabyte nothing is known of it.
pub proof fn law_card_gives_whole_megabytes(
    megabytes: u64,
    rest: u64,
    size: u64,
    height: Seq<char>,
    format: Seq<char>,
)
    requires
        rest < 1048576,
        size == megabytes * 1048576 + rest,
    ensures
        megabytes > 0 ==> info_text_of(size, height, format) == "📏 Tamaño: "@ + decimal(
            megabytes as nat,
        ) + " MB  |  📐 "@ + height + "p  |  🎬 "@ + format,
        megabytes == 0 ==> info_text_of(size, height, format) == "ℹ️ Información no disponible"@,
        size_or_zero(Some(size)) == size,
        size_or_zero(None) == 0,
        label_or_unknown(Some(height)) == height,
        label_or_unknown(None) == "?"@,
{
    assert(size / 1048576 == megabytes);
}

/// What a card says about a video: `size` is that of the file, `None` when it cannot
/// be read, and `height` what the probe gave. The format is the extension in capital
/// letters.
pub fn info_text(size: Option<u64>, height: Option<&str>, video_path: &str) -> (text: String)
    ensures
        text@ == info_text_of(
            size_or_zero(size),
            label_or_unknown(opt_str(height)),
            match extension(video_path@) {
                Some(ext) => uppercase(ext),
                None => "?"@,
            },
        ),
        extension(video_path@) matches Some(ext) ==> (ascii_only(ext) ==> text@ == info_text_of(
            size_or_zero(size),
            label_or_unknown(opt_str(height)),
            ext.map_values(|c: char| ascii_upper(c)),
        )),
{
    let format = match path_extension(video_path) {
        Some(ext) => uppercase_text(ext.as_str()),
        None => "?".to_owned(),
    };
    let bytes: u64 = match size {
        Some(s) => s,
        None => 0,
    };
    let label = match height {
        Some(h) => h.to_owned(),
        None => "?".to_owned(),
    };
    card_info(bytes, label.as_str(), format.as_str())
}

/// What a card says about a video, for its size, height and format.
pub fn card_info(size: u64, height: &str, format: &str) -> (text: String)
    ensures
        text@ == info_text_of(size, height@, format@),
{
    let megabytes: u64 = size / 1048576;
    if megabytes > 0 {
        let mut text = "📏 Tamaño: ".to_owned();
        text.append(decimal_text(megabytes).as_str());
        text.append(" MB  |  📐 ");
        text.append(height);
        text.append("p  |  🎬 ");
        text.append(format);
        text
    } else {
        "ℹ️ Información no disponible".to_owned()
    }
}

// Pictures.

/// Where a video's picture may be, best place first: among the video's own files,
/// and in the directory of the other pictures.
pub fn thumbnail_candidates(name: &str, assets_dir: &str, thumbnail_dir: &str) -> (paths: Vec<
    String,
>)
    ensures
        texts(paths@) == seq![
            joined(joined(assets_dir@, "thumbnails"@), name@),
            joined(thumbnail_dir@, name@),
        ],
{
    let own = join_path(assets_dir, "thumbnails");
    let paths = vec![join_path(own.as_str(), name), join_path(thumbnail_dir, name)];
    assert(texts(paths@) =~= seq![
        joined(joined(assets_dir@, "thumbnails"@), name@),
        joined(thumbnail_dir@, name@),
    ]);
    paths
}

/// Where a picture for a card comes from.
#[derive(Debug, Clone, Copy, PartialEq, Eq, Structural)]
pub enum PictureSource {
    /// The stand-in for videos without a picture.
    Default,
    /// The candidate with this index.
    Candidate(usize),
    /// A new picture is to be made.
    Generate,
}

/// The first of the candidates that is there.
pub fn first_there(there: &Vec<bool>) -> (first: Option<usize>)
    ensures
        match first {
            Some(i) => i < there@.len() && there@[i as int] && forall|j: int|
                0 <= j < i ==> !there@[j],
            None => forall|j: int| 0 <= j < there@.len() ==> !there@[j],
        },
{
    for i in 0..there.len()
        invariant
            forall|j: int| 0 <= j < i ==> !there@[j],
    {
        if there[i] {
            return Some(i);
        }
    }
    None
}

/// Where the picture for a card comes from: a video that is being converted gets
/// the stand-in; otherwise the first candidate that can be loaded is taken, or a
/// new picture is made.
pub fn create_video_thumbnail(converting: bool, loadable: &Vec<bool>) -> (source: PictureSource)
    ensures
        converting ==> source == PictureSource::Default,
        !converting ==> match source {
            PictureSource::Candidate(i) => i < loadable@.len() && loadable@[i as int] && forall|j: int|
                0 <= j < i ==> !loadable@[j],
            PictureSource::Generate => forall|j: int| 0 <= j < loadable@.len() ==> !loadable@[j],
            PictureSource::Default => false,
        },
{
    if converting {
        return PictureSource::Default;
    }
    match first_there(loadable) {
        Some(i) => PictureSource::Candidate(i),
        None => PictureSource::Generate,
    }
}

/// `a` divided by `b`, which is positive, rounded towards zero.
pub open spec fn quotient(a: int, b: int) -> int {
    if a >= 0 {
        a / b
    } else {
        -((-a) / b)
    }
}

/// The quotient times the divisor comes as close to the number as it can without passing it,
/// and that of the opposite number is the opposite.
pub proof fn law_quotient_rounds_towards_zero(a: int, b: int)
    requires
        b > 0,
    ensures
        a >= 0 ==> b * quotient(a, b) <= a < b * quotient(a, b) + b,
        quotient(-a, b) == -quotient(a, b),
{
    vstd::arithmetic::div_mod::lemma_fundamental_div_mod(a, b);
    vstd::arithmetic::div_mod::lemma_mod_bound(a, b);
    if a == 0 {
        assert(0int / b == 0) by (nonlinear_arith)
            requires
                b > 0,
        ;
    }
}

/// The height to which a picture of the given size is scaled, so that it is
/// `PICTURE_WIDTH` wide and keeps its proportions; `unknown` when it has no width.
pub fn scaled_height(width: i32, height: i32, unknown: i32) -> (scaled: i32)
    requires
        width > 0 ==> i32::MIN <= height * PICTURE_WIDTH <= i32::MAX,
    ensures
        scaled == if width > 0 {
            quotient(height * PICTURE_WIDTH, width as int)
        } else {
            unknown as int
        },
{
    if width > 0 {
        let product: i64 = height as i64 * PICTURE_WIDTH as i64;
        let size: u64 = if product >= 0 { product as u64 } else { (-product) as u64 };
        proof {
            vstd::arithmetic::div_mod::lemma_div_is_ordered_by_denominator(
                size as int,
                1,
                width as int,
            );
            vstd::arithmetic::div_mod::lemma_div_pos_is_pos(size as int, width as int);
        }
        let whole: i64 = (size / width as u64) as i64;
        if product >= 0 {
            whole as i32
        } else {
            (-whole) as i32
        }
    } else {
        unknown
    }
}

/// The height to which a preview frame of the given size is scaled; a frame that is
/// no wider than `PICTURE_WIDTH` is left as it is.
pub fn preview_scaled_height(width: i32, height: i32) -> (scaled: Option<i32>)
    requires
        width > PICTURE_WIDTH ==> i32::MIN <= height * PICTURE_WIDTH <= i32::MAX,
    ensures
        match scaled {
            Some(h) => width > PICTURE_WIDTH && h == quotient(
                height * PICTURE_WIDTH,
                width as int,
            ),
            None => width <= PICTURE_WIDTH,
        },
{
    if width > PICTURE_WIDTH {
        let h: i32 = scaled_height(width, height, height);
        Some(h)
    } else {
        None
    }
}

/// The arguments that make a picture of a video.
pub fn thumbnail_arguments(video_path: &str, output_path: &str) -> (args: Vec<String>)
    ensures
        texts(args@) == seq![
            "-loglevel"@,
            "error"@,
            "-ss"@,
            "00:00:03"@,
            "-i"@,
            video_path@,
            "-vframes"@,
            "1"@,
            "-vf"@,
            "scale=2048:-1:force_original_aspect_ratio=decrease:flags=lanczos"@,
            "-vcodec"@,
            "png"@,
            "-y"@,
            output_path@,
        ],
{
    let args = vec![
        "-loglevel".to_owned(),
        "error".to_owned(),
        "-ss".to_owned(),
        "00:00:03".to_owned(),
        "-i".to_owned(),
        video_path.to_owned(),
        "-vframes".to_owned(),
        "1".to_owned(),
        "-vf".to_owned(),
        "scale=2048:-1:force_original_aspect_ratio=decrease:flags=lanczos".to_owned(),
        "-vcodec".to_owned(),
        "png".to_owned(),
        "-y".to_owned(),
        output_path.to_owned(),
    ];
    assert(texts(args@) =~= seq![
        "-loglevel"@,
        "error"@,
        "-ss"@,
        "00:00:03"@,
        "-i"@,
        video_path@,
        "-vframes"@,
        "1"@,
        "-vf"@,
        "scale=2048:-1:force_original_aspect_ratio=decrease:flags=lanczos"@,
        "-vcodec"@,
        "png"@,
        "-y"@,
        output_path@,
    ]);
    args
}

/// `i` is where the first line of `s` ends: at its first line feed, or at its end.
pub open spec fn ends_first_line(s: Seq<char>, i: int) -> bool {
    &&& 0 <= i <= s.len()
    &&& forall|j: int| 0 <= j < i ==> s[j] != '\n'
    &&& i < s.len() ==> s[i] == '\n'
}

/// `line` is the first line of `s`, without its line end: a line feed, or a carriage
/// return and a line feed.
pub open spec fn is_first_line(s: Seq<char>, line: Seq<char>) -> bool {
    exists|i: int|
        ends_first_line(s, i) && line == if 0 < i < s.len() && s[i - 1] == '\r' {
            s.take(i - 1)
        } else {
            s.take(i)
        }
}

/// The first line is what stands before the first line end, or everything when there is none:
/// no line feed is in it, and a carriage return belongs to the line feed that follows.
pub proof fn law_first_line_ends_at_its_line_end(s: Seq<char>, line: Seq<char>)
    requires
        is_first_line(s, line),
    ensures
        !line.contains('\n'),
        line.is_prefix_of(s),
        ({
            let n = line.len() as int;
            ||| n == s.len()
            ||| s[n] == '\n' && (n == 0 || line[n - 1] != '\r')
            ||| n + 1 < s.len() && s[n] == '\r' && s[n + 1] == '\n'
        }),
{
    let i = choose|i: int|
        ends_first_line(s, i) && line == if 0 < i < s.len() && s[i - 1] == '\r' {
            s.take(i - 1)
        } else {
            s.take(i)
        };
    assert(ends_first_line(s, i));
    assert(line =~= s.take(line.len() as int));
}

/// The first line of a text.
pub fn first_line(s: &str) -> (line: String)
    ensures
        is_first_line(s@, line@),
{
    let chars = chars_of(s);
    let n: usize = chars.len();
    let mut i: usize = 0;
    while i < n && chars[i] != '\n'
        invariant
            chars@ == s@,
            n == chars@.len(),
            i <= n,
            forall|j: int| 0 <= j < i ==> s@[j] != '\n',
        decreases n - i,
    {
        i += 1;
    }
    let mut end: usize = i;
    if i > 0 && i < n && chars[i - 1] == '\r' {
        end = i - 1;
    }
    assert(ends_first_line(s@, i as int));
    let line = s.substring_char(0, end);
    assert(line@ =~= s@.take(end as int));
    line.to_owned()
}

/// The complaint that quotes the first line of what the tool printed; none when it
/// printed nothing but white space.
pub fn tool_complaint(output: &str) -> (complaint: Option<String>)
    ensures
        complaint is None <==> trimmed(output@).len() == 0,
        complaint matches Some(text) ==> exists|line: Seq<char>| #[trigger]
            is_first_line(output@, line) && text@ == "❌ Error ffmpeg: "@ + line,
{
    let rest = trim_text(output);
    if rest.as_str().is_empty() {
        None
    } else {
        let line = first_line(output);
        assert(is_first_line(output@, line@));
        Some("❌ Error ffmpeg: ".to_owned().concat(line.as_str()))
    }
}

/// The complaint when no picture came of it, from what the tool printed to its error
/// stream: its first line; nothing when that is blank; or that there is no message.
pub fn thumbnail_failure(stderr: &Vec<u8>) -> (complaint: Option<String>)
    ensures
        stderr@.len() == 0 ==> opt_text(complaint) == Some("❌ ffmpeg falló sin mensaje de error"@),
        stderr@.len() > 0 ==> {
            &&& complaint is None <==> trimmed(lossy_utf8(stderr@)).len() == 0
            &&& complaint matches Some(text) ==> exists|line: Seq<char>| #[trigger]
                is_first_line(lossy_utf8(stderr@), line) && text@ == "❌ Error ffmpeg: "@ + line
        },
{
    if stderr.len() == 0 {
        return Some("❌ ffmpeg falló sin mensaje de error".to_owned());
    }
    let text = lossy_text(stderr.as_slice());
    tool_complaint(text.as_str())
}

} // verus!
