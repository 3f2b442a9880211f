use cinnamon_wallpaper::library::{
    badge_state_text, can_delete, card_info, card_title, copy_plan, copy_video_to_library,
    create_video_thumbnail, find_existing_videos, first_line, first_there, get_thumbnail_dir,
    get_video_assets_dir, get_video_height_label, get_video_library_dir, height_label,
    height_probe_arguments, info_text, is_supported_video_format, numbered_directory, numbered_name, preview_base,
    preview_base_name, preview_scaled_height, removal, removal_directory, scaled_height,
    thumbnail_arguments, thumbnail_candidates, thumbnail_failure, thumbnail_file_name,
    thumbnail_name, tool_complaint, video_extension, video_patterns, CopyStep, FoundEntry, LibraryError,
    PictureSource, Removal,
};
use std::collections::hash_map::DefaultHasher;
use std::hash::{Hash, Hasher};
use std::path::PathBuf;

fn number_of(path: &str) -> u64 {
    let mut hasher = DefaultHasher::new();
    PathBuf::from(path).hash(&mut hasher);
    hasher.finish()
}

fn texts(items: &[&str]) -> Vec<String> {
    items.iter().map(|s| s.to_string()).collect()
}

const LIB: &str = "/data/cinnamon-wallpaper/videos";

#[test]
fn library_directories() {
    assert_eq!(get_video_library_dir(Some("/data"), Some("/h")), LIB);
    assert_eq!(
        get_video_library_dir(None, Some("/h")),
        "/h/.local/share/cinnamon-wallpaper/videos"
    );
    assert_eq!(get_video_library_dir(None, None), ".local/share/cinnamon-wallpaper/videos");
    assert_eq!(get_thumbnail_dir(Some("/data"), None), "/data/cinnamon-wallpaper/thumbnails");
}

#[test]
fn assets_of_a_video() {
    let video = format!("{}/a_1/a.mp4", LIB);
    assert_eq!(get_video_assets_dir(&video, true, LIB, "/t"), format!("{}/a_1", LIB));
    assert_eq!(get_video_assets_dir(&video, false, LIB, "/t"), "/t");
    assert_eq!(get_video_assets_dir("/elsewhere/a.mp4", true, LIB, "/t"), "/t");
    // A common beginning of the name is no common directory.
    assert_eq!(
        get_video_assets_dir("/data/cinnamon-wallpaper/videos2/a.mp4", true, LIB, "/t"),
        "/t"
    );
}

#[test]
fn supported_formats() {
    for name in ["a.mp4", "a.AVI", "a.Mkv", "a.webm", "a.MOV", "a.wmv", "a.flv", "a.m4v"] {
        assert!(is_supported_video_format(&format!("/v/{}", name)), "{}", name);
    }
    for name in ["a.txt", "mp4", ".mp4", "a.mp4.part", "a.mp4/..", "a.", "", "a.mp3"] {
        assert!(!is_supported_video_format(name), "{}", name);
    }
    assert!(is_supported_video_format("a.mp4/"));
    assert!(is_supported_video_format("dir.x/b.tar.mp4"));
    assert!(video_extension("mp4") && !video_extension("MP4"));
    let patterns = video_patterns();
    assert_eq!(patterns.len(), 16);
    assert_eq!((patterns[0].as_str(), patterns[15].as_str()), ("*.mp4", "*.M4V"));
}

#[test]
fn videos_that_exist() {
    let entry = |path: &str, is_file: bool| FoundEntry { path: path.to_string(), is_file };
    let library = vec![
        entry("/l", false),
        entry("/l/b.mp4", true),
        entry("/l/dir.mp4", false),
        entry("/l/a.txt", true),
        entry("/l/a.WEBM", true),
    ];
    let others = texts(&["src/video/x.mov", "src/video/readme.md", "assets/y.mp4"]);
    assert_eq!(
        find_existing_videos(&library, &others),
        texts(&["/l/b.mp4", "/l/a.WEBM", "src/video/x.mov", "assets/y.mp4"])
    );
    assert!(find_existing_videos(&vec![], &vec![]).is_empty());
}

#[test]
fn names_carry_the_path_number() {
    assert_eq!(thumbnail_name(0xabc), "thumb_abc.png");
    assert_eq!(preview_base(0xabc), "preview_abc");
    assert_eq!(numbered_name("mi video", 16), "mi video_10");
    let path = "/v/mi video.mp4";
    assert_eq!(thumbnail_file_name(path), format!("thumb_{:x}.png", number_of(path)));
    assert_eq!(preview_base_name(path), format!("preview_{:x}", number_of(path)));
    assert_eq!(numbered_directory("s", path), format!("s_{:x}", number_of(path)));
    assert_eq!(thumbnail_file_name("/v//mi video.mp4"), thumbnail_file_name(path));
    assert_ne!(thumbnail_file_name("/v/otro.mp4"), thumbnail_file_name(path));
}

#[test]
fn adding_a_video() {
    let plan = copy_plan("/in/clip.v2.mp4", 255, LIB).ok().unwrap();
    assert_eq!(plan.directory, format!("{}/clip.v2_ff", LIB));
    assert_eq!(plan.destination, format!("{}/clip.v2_ff/clip.v2.mp4", LIB));
    let plan = copy_video_to_library("/in/clip.mp4", LIB).ok().unwrap();
    assert_eq!(plan.directory, format!("{}/clip_{:x}", LIB, number_of("/in/clip.mp4")));
    assert_eq!(
        copy_video_to_library("/in/..", LIB).err().unwrap().message(),
        "Nombre de archivo inválido"
    );
    assert!(copy_plan("/", 1, LIB).is_err());
}

#[test]
fn copy_that_is_there_is_kept() {
    let plan = copy_video_to_library("/in/clip.mp4", LIB).ok().unwrap();
    let destination = plan.destination.clone();
    match plan.copy_step("/in/clip.mp4", false) {
        CopyStep::Copy { source, destination: d } => {
            assert_eq!((source.as_str(), &d), ("/in/clip.mp4", &destination))
        }
        CopyStep::Keep => panic!("no copy"),
    }
    assert!(matches!(plan.copy_step("/in/clip.mp4", true), CopyStep::Keep));
    assert_eq!(plan.copied(None).ok(), Some(destination.clone()));
    let again = copy_video_to_library("/in/clip.mp4", LIB).ok().unwrap();
    assert_eq!(again.destination, destination);
    assert_eq!(
        again.copied(Some("full".to_string())).err().unwrap().message(),
        "Error copiando archivo: full"
    );
}

#[test]
fn removing_undoes_adding() {
    for source in ["/in/clip.mp4", "clip", "/in/.oculto", "/in/a b/..mp4"] {
        let plan = copy_video_to_library(source, LIB).ok().unwrap();
        assert!(can_delete(&plan.destination, LIB));
        let dir = removal_directory(&plan.destination, LIB);
        assert_eq!(dir, plan.directory);
        assert_eq!(get_video_assets_dir(&plan.destination, true, LIB, "/t"), plan.directory);
        match removal(&plan.destination, &dir, true, LIB) {
            Removal::Directory(d) => assert_eq!(d, plan.directory),
            Removal::File(_) => panic!("only the file"),
        }
    }
}

#[test]
fn library_errors() {
    for (e, text) in [
        (
            LibraryError::NoLibrary("x".to_string()),
            "No se pudo crear el directorio de biblioteca: x",
        ),
        (LibraryError::NoFileName, "Nombre de archivo inválido"),
        (LibraryError::NoStem, "Stem inválido"),
        (LibraryError::NoDirectory("x".to_string()), "No se pudo crear la carpeta del video: x"),
        (LibraryError::CopyFailed("x".to_string()), "Error copiando archivo: x"),
    ] {
        assert_eq!(e.message(), text);
    }
}

#[test]
fn removing_a_video() {
    let video = format!("{}/a_1/a.mp4", LIB);
    assert!(can_delete(&video, LIB));
    assert!(!can_delete("/elsewhere/a.mp4", LIB));
    let dir = removal_directory(&video, LIB);
    assert_eq!(dir, format!("{}/a_1", LIB));
    match removal(&video, &dir, true, LIB) {
        Removal::Directory(d) => assert_eq!(d, format!("{}/a_1", LIB)),
        Removal::File(_) => panic!("only the file"),
    }
    match removal(&video, &dir, false, LIB) {
        Removal::File(f) => assert_eq!(f, video),
        Removal::Directory(_) => panic!("a directory that is not there"),
    }
}

#[test]
fn library_itself_is_never_removed() {
    let video = format!("{}/a.mp4", LIB);
    let dir = removal_directory(&video, LIB);
    match removal(&video, &dir, true, &format!("{}/", LIB)) {
        Removal::File(f) => assert_eq!(f, video),
        Removal::Directory(d) => panic!("would remove {}", d),
    }
    assert_eq!(removal_directory("/", LIB), LIB);
}

#[test]
fn card_texts() {
    assert_eq!(badge_state_text("x_480p_30fps_optimizado"), "⚡ Optimizado");
    assert_eq!(badge_state_text("optimizado"), "📀 Original");
    assert_eq!(card_title("/v/mi video.mp4"), "mi video");
    assert_eq!(card_title("/"), "Video sin nombre");
    assert_eq!(
        info_text(Some(5 * 1024 * 1024 + 17), Some("720"), "/v/a.mp4"),
        "📏 Tamaño: 5 MB  |  📐 720p  |  🎬 MP4"
    );
    assert_eq!(
        info_text(Some(1024 * 1024), None, "/v/a"),
        "📏 Tamaño: 1 MB  |  📐 ?p  |  🎬 ?"
    );
    assert_eq!(
        info_text(Some(1024 * 1024 - 1), Some("720"), "/v/a.mp4"),
        "ℹ️ Información no disponible"
    );
    assert_eq!(info_text(None, None, "/v/a.mp4"), "ℹ️ Información no disponible");
    assert_eq!(
        card_info(3 << 20, "480", "WEBM"),
        "📏 Tamaño: 3 MB  |  📐 480p  |  🎬 WEBM"
    );
}

#[test]
fn video_height() {
    assert_eq!(get_video_height_label(true, &b" 1080\n".to_vec()), Some("1080".to_string()));
    assert_eq!(get_video_height_label(false, &b"1080\n".to_vec()), None);
    assert_eq!(get_video_height_label(true, &b" \n".to_vec()), None);
    assert_eq!(height_label(true, "480 "), Some("480".to_string()));
    assert_eq!(height_label(false, "480"), None);
    let args = height_probe_arguments("/v.mp4");
    assert_eq!(
        args.join(" "),
        "-v error -select_streams v:0 -show_entries stream=height -of csv=p=0 /v.mp4"
    );
}

#[test]
fn pictures_of_a_video() {
    assert_eq!(
        thumbnail_candidates("thumb_1.png", "/l/a", "/t"),
        texts(&["/l/a/thumbnails/thumb_1.png", "/t/thumb_1.png"])
    );
    assert_eq!(first_there(&vec![false, true, true]), Some(1));
    assert_eq!(first_there(&vec![false]), None);
    assert_eq!(create_video_thumbnail(true, &vec![true]), PictureSource::Default);
    assert_eq!(create_video_thumbnail(false, &vec![false, true]), PictureSource::Candidate(1));
    assert_eq!(create_video_thumbnail(false, &vec![false, false]), PictureSource::Generate);
    assert_eq!(
        thumbnail_arguments("/v.mp4", "/o.png").join(" "),
        "-loglevel error -ss 00:00:03 -i /v.mp4 -vframes 1 -vf \
         scale=2048:-1:force_original_aspect_ratio=decrease:flags=lanczos -vcodec png -y /o.png"
    );
}

#[test]
fn picture_heights() {
    assert_eq!(scaled_height(1920, 1080, 180), 180);
    assert_eq!(scaled_height(1000, 999, 180), 319);
    assert_eq!(scaled_height(0, 99, 180), 180);
    assert_eq!(scaled_height(-1, 99, 99), 99);
    assert_eq!(scaled_height(1000, -999, 180), (-999 * 320) / 1000);
    assert_eq!(scaled_height(1, i32::MAX / 320, 0), i32::MAX / 320 * 320);
    assert_eq!(preview_scaled_height(640, 360), Some(180));
    assert_eq!(preview_scaled_height(320, 360), None);
}

#[test]
fn complaints_of_the_picture_tool() {
    assert_eq!(first_line("a\nb"), "a");
    assert_eq!(first_line("a\r\nb"), "a");
    assert_eq!(first_line("a\r"), "a\r");
    assert_eq!(first_line("\nb"), "");
    for s in ["x\ny", "x\r\ny", "x\r", "\n", "uno"] {
        assert_eq!(first_line(s), s.lines().next().unwrap());
    }
    assert_eq!(
        thumbnail_failure(&b"no such file\nmore".to_vec()),
        Some("❌ Error ffmpeg: no such file".to_string())
    );
    assert_eq!(tool_complaint("uno\ndos"), Some("❌ Error ffmpeg: uno".to_string()));
    assert_eq!(tool_complaint("\t"), None);
    assert_eq!(thumbnail_failure(&b" \n".to_vec()), None);
    assert_eq!(
        thumbnail_failure(&vec![]),
        Some("❌ ffmpeg falló sin mensaje de error".to_string())
    );
}
