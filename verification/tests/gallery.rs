use cinnamon_wallpaper::active::Notice;
use cinnamon_wallpaper::conversion::{
    begin_conversion, closing_messages, conversion_arguments, conversion_options, conversion_plan,
    convert_video, duration_probe_arguments, launching_message, opening_messages, option_place,
    overwriting_message, parse_fps, perform_video_conversion_with_progress, progress_time,
    quality_name, take_progress, ConversionAction, ConversionEnd, ConversionEvent, ConvertingFiles,
    ProgressEvent, ProgressMessage, ProgressView,
};
use cinnamon_wallpaper::gallery::{
    count_text, dialog_folders, preview_notice, preview_players, refuse_file, removal_notice,
    update_gallery, Arrival, GalleryContent, Intake, ViewMode, WallpaperApp,
};
use cinnamon_wallpaper::library::{
    badge_state_text, can_delete, card_title, removal_directory, LibraryError, Removal,
};
use cinnamon_wallpaper::watch::{
    is_relevant_change, update_message, ChangeKind, Monitoring, Signals, Tick,
};

const SECOND: u128 = 1_000_000_000;

fn text(n: &Notice) -> &str {
    match n {
        Notice::Success(t) => t,
        Notice::Error(t) => t,
    }
}

fn is_error(n: &Notice) -> bool {
    matches!(n, Notice::Error(_))
}

fn owned_texts(items: &[&str]) -> Vec<String> {
    items.iter().map(|s| s.to_string()).collect()
}

#[test]
fn selecting_a_video() {
    let mut app = WallpaperApp::new().unwrap();
    assert_eq!(app.selected(), None);
    assert_eq!(text(&app.select("/v/a.mp4")), "✅ Video seleccionado: a.mp4");
    assert_eq!(app.selected(), Some("/v/a.mp4".to_string()));
}

#[test]
fn added_video_is_selected() {
    let mut app = WallpaperApp::new().unwrap();
    let a = app.file_copied(Err(LibraryError::NoStem));
    assert!(a.added.is_none() && is_error(&a.notice));
    assert_eq!(text(&a.notice), "❌ Error al copiar video a la biblioteca: Stem inválido");
    assert_eq!(app.selected(), None);
    let a = app.file_copied(Ok("/l/a_1/a.mp4".to_string()));
    assert_eq!(a.added, Some("/l/a_1/a.mp4".to_string()));
    assert_eq!(text(&a.notice), "🎉 Video añadido a la biblioteca: a.mp4");
    assert_eq!(app.selected(), Some("/l/a_1/a.mp4".to_string()));
}

#[test]
fn only_videos_are_taken() {
    assert!(refuse_file("/v/a.MKV", Intake::Dropped).is_none());
    assert!(refuse_file("/v/a.MKV", Intake::Chosen).is_none());
    let n = refuse_file("/v/a.txt", Intake::Dropped).unwrap();
    assert_eq!(text(&n), "❌ Formato no soportado: /v/a.txt");
    let n = refuse_file("/v/a.txt", Intake::Chosen).unwrap();
    assert_eq!(
        text(&n),
        "❌ Uno de los archivos seleccionados no es un formato de video soportado"
    );
    assert!(is_error(&n));
}

#[test]
fn several_files_are_taken_one_by_one() {
    let mut app = WallpaperApp::new().unwrap();
    let arrival = |path: &str, copied: Option<Result<String, LibraryError>>| Arrival {
        path: path.to_string(),
        copied,
    };
    let files = vec![
        arrival("/v/a.mp4", Some(Ok("/l/a_1/a.mp4".to_string()))),
        arrival("/v/b.txt", None),
        arrival("/v/c.mkv", Some(Err(LibraryError::CopyFailed("full".to_string())))),
        arrival("/v/d.webm", Some(Ok("/l/d_2/d.webm".to_string()))),
        arrival("/v/e.txt", None),
    ];
    let added = app.take_files(files, Intake::Dropped);
    let videos: Vec<Option<&str>> = added.iter().map(|a| a.added.as_deref()).collect();
    assert_eq!(
        videos,
        vec![Some("/l/a_1/a.mp4"), None, None, Some("/l/d_2/d.webm"), None]
    );
    assert_eq!(text(&added[0].notice), "🎉 Video añadido a la biblioteca: a.mp4");
    assert_eq!(text(&added[1].notice), "❌ Formato no soportado: /v/b.txt");
    assert_eq!(
        text(&added[2].notice),
        "❌ Error al copiar video a la biblioteca: Error copiando archivo: full"
    );
    assert_eq!(app.selected(), Some("/l/d_2/d.webm".to_string()));
    assert_eq!(app.take_files(vec![arrival("/v/b.txt", None)], Intake::Chosen).len(), 1);
    assert_eq!(app.selected(), Some("/l/d_2/d.webm".to_string()));
    assert!(app.take_files(vec![], Intake::Chosen).is_empty());
}

#[test]
fn gallery_contents() {
    assert_eq!(update_gallery(&vec![]), GalleryContent::DropArea);
    assert_eq!(update_gallery(&owned_texts(&["a"])), GalleryContent::Cards);
    assert_eq!(count_text(12), "Videos: 12");
    assert_eq!(dialog_folders(Some("/h")), owned_texts(&["/h/Videos", "/h/Vídeos"]));
    assert!(dialog_folders(None).is_empty());
}

#[test]
fn view_mode_toggles() {
    let mut m = ViewMode::new();
    assert!(!m.is_list_mode());
    assert_eq!(m.button_label(), "📋 Modo Lista");
    m.toggle_view_mode();
    assert!(m.is_list_mode());
    assert_eq!(m.button_label(), "🔲 Modo Galería");
    assert_eq!(m.changed_message(), "🔄 Cambiado a modo lista");
    m.toggle_view_mode();
    assert!(!m.is_list_mode());
    assert_eq!(m.changed_message(), "🔄 Cambiado a modo galería");
}

#[test]
fn removal_messages() {
    let dir = Removal::Directory("/l/a_1".to_string());
    let file = Removal::File("/l/a.mp4".to_string());
    assert_eq!(text(&removal_notice(&dir, None)), "🗑️ Video eliminado (con assets): /l/a_1");
    assert_eq!(
        text(&removal_notice(&dir, Some("no"))),
        "❌ Error al eliminar carpeta del video: no"
    );
    assert_eq!(text(&removal_notice(&file, None)), "🗑️ Video eliminado: a.mp4");
    assert_eq!(text(&removal_notice(&file, Some("no"))), "❌ Error al eliminar video: no");
}

#[test]
fn players_in_order() {
    let players = preview_players("/v.mp4");
    let programs: Vec<&str> = players.iter().map(|p| p.program.as_str()).collect();
    assert_eq!(programs, vec!["mpv", "vlc", "totem", "xdg-open"]);
    assert_eq!(players[0].arguments, owned_texts(&["--geometry=800x600", "/v.mp4"]));
    assert_eq!(players[3].arguments, owned_texts(&["/v.mp4"]));
    assert_eq!(text(&preview_notice(Some("vlc"))), "✅ Abriendo preview con vlc");
    assert!(is_error(&preview_notice(None)));
}

#[test]
fn relevant_changes() {
    let videos = owned_texts(&["/l/x.png", "/l/a.mp4"]);
    for kind in [ChangeKind::Create, ChangeKind::Remove, ChangeKind::Modify] {
        assert!(is_relevant_change(kind, &videos));
        assert!(!is_relevant_change(kind, &owned_texts(&["/l/x.png"])));
    }
    assert!(!is_relevant_change(ChangeKind::Other, &videos));
    assert!(!is_relevant_change(ChangeKind::Create, &vec![]));
}

#[test]
fn changes_update_the_gallery() {
    let mut m = Monitoring::new();
    assert_eq!(m.tick(Signals::Quiet, 0), Tick::Wait);
    assert_eq!(m.tick(Signals::Changes, 0), Tick::Update);
    assert_eq!(m.tick(Signals::Closed, 0), Tick::Stop);
    assert_eq!(
        update_message(Tick::Update),
        Some("🔄 Galería actualizada automáticamente".to_string())
    );
    assert_eq!(
        update_message(Tick::UpdatePending),
        Some("🔄 Galería actualizada (cambios detectados)".to_string())
    );
    assert_eq!(update_message(Tick::Wait), None);
}

#[test]
fn no_update_while_paused_or_settling() {
    let mut m = Monitoring::new();
    m.pause_monitoring();
    assert!(m.is_monitoring_paused());
    assert_eq!(m.tick(Signals::Changes, SECOND), Tick::Wait);
    assert!(!m.has_pending_update());
    m.resume_monitoring(10 * SECOND);
    assert!(m.has_pending_update() && !m.is_monitoring_paused());
    assert_eq!(m.tick(Signals::Quiet, 12 * SECOND), Tick::Wait);
    assert_eq!(m.tick(Signals::Changes, 15 * SECOND - 1), Tick::Wait);
    assert!(!m.should_allow_update(15 * SECOND - 1));
    assert!(!m.should_allow_update(9 * SECOND));
    assert_eq!(m.tick(Signals::Quiet, 15 * SECOND), Tick::UpdatePending);
    assert_eq!(m.tick(Signals::Quiet, 16 * SECOND), Tick::Wait);
}

#[test]
fn change_held_back_is_not_forgotten() {
    let mut m = Monitoring::new();
    m.resume_monitoring(0);
    m.clear_pending_update();
    assert_eq!(m.tick(Signals::Changes, SECOND), Tick::Wait);
    assert!(m.has_pending_update());
    assert_eq!(m.tick(Signals::Changes, 5 * SECOND), Tick::Update);
    assert!(!m.has_pending_update());
}

#[test]
fn conversion_dialog() {
    let options = conversion_options();
    assert_eq!(options.len(), 4);
    assert_eq!(options[1].title, "💻 720p");
    assert_eq!(options[3].subtitle, "Optimización Pura");
    assert!(options[0].description.contains("854x480"));
    let places: Vec<(usize, usize)> = (0..4).map(option_place).collect();
    assert_eq!(places, vec![(0, 0), (1, 0), (0, 1), (1, 1)]);
    assert_eq!(parse_fps("1"), Ok(1));
    assert_eq!(parse_fps("120"), Ok(120));
    for bad in ["0", "121", "", "x", "-3", "3.5"] {
        assert_eq!(
            parse_fps(bad),
            Err("❌ Por favor, introduce un valor FPS válido (1-120)".to_string())
        );
    }
}

#[test]
fn result_is_named_after_the_quality() {
    let names: Vec<&str> = (0..4).map(quality_name).collect();
    assert_eq!(names, vec!["480p", "720p", "1080p", "original"]);
    let plan = conversion_plan("/v/clip.webm", 1, 30, "dir", "/l");
    assert_eq!(plan.file_name, "clip_720p_30fps_optimizado.webm");
    assert_eq!(plan.directory, "/l/dir");
    assert_eq!(plan.output, "/l/dir/clip_720p_30fps_optimizado.webm");
    let plan = convert_video("/v/clip", 3, 60, "/l");
    assert_eq!(plan.file_name, "clip_original_60fps_optimizado.");
    assert!(plan.directory.starts_with("/l/clip_original_60fps_optimizado_"));
    assert_eq!(
        overwriting_message("x.mp4"),
        "⚠️ El archivo x.mp4 ya existe. Sobrescribiendo..."
    );
}

#[test]
fn result_is_optimized() {
    for quality in 0..4 {
        let plan = convert_video("/v/mi.clip.mp4", quality, 24, "/l");
        assert_eq!(badge_state_text(&card_title(&plan.output)), "⚡ Optimizado");
        assert!(plan.output.ends_with(".mp4"));
        assert!(can_delete(&plan.output, "/l"));
        assert_eq!(removal_directory(&plan.output, "/l"), plan.directory);
    }
}

#[test]
fn arguments_of_a_conversion() {
    let common = "-loglevel info -progress pipe:1 -i in -an -movflags +faststart -g 60 \
                  -pix_fmt yuv420p -tune film -x264opts \
                  ref=3:bframes=3:b-adapt=2:direct=auto:me=umh:subme=8:trellis=2:psy-rd=1.0,0.15";
    let own = [
        "-vf scale=854:480:force_original_aspect_ratio=decrease:flags=lanczos,\
         pad=854:480:(ow-iw)/2:(oh-ih)/2 -crf 22 -preset medium -c:v libx264 -profile:v main \
         -level 3.1 -r 25",
        "-vf scale=1280:720:force_original_aspect_ratio=decrease:flags=lanczos,\
         pad=1280:720:(ow-iw)/2:(oh-ih)/2 -crf 20 -preset slow -c:v libx264 -profile:v high \
         -level 3.1 -r 25",
        "-vf scale=1920:1080:force_original_aspect_ratio=decrease:flags=lanczos,\
         pad=1920:1080:(ow-iw)/2:(oh-ih)/2 -crf 18 -preset slower -c:v libx264 -profile:v high \
         -level 4.0 -aq-mode 2 -r 25",
        "-crf 16 -preset veryslow -c:v libx264 -profile:v high -aq-mode 3 -psy-rd 1.0,0.15 -r 25",
    ];
    for (quality, part) in own.iter().enumerate() {
        assert_eq!(
            conversion_arguments("in", "out", quality, 25).unwrap().join(" "),
            format!("{} {} -y out", common, part)
        );
    }
    assert!(conversion_arguments("in", "out", 4, 25).is_none());
    assert_eq!(
        duration_probe_arguments("v").join(" "),
        "-v quiet -print_format csv=p=0 -show_entries format=duration v"
    );
}

#[test]
fn messages_of_a_conversion() {
    let m = opening_messages();
    assert_eq!(m.len(), 2);
    assert!(matches!(m[0], ProgressMessage::Started));
    assert!(matches!(&m[1], ProgressMessage::Status(s) if s == "Analizando video..."));
    assert!(matches!(
        launching_message(),
        ProgressMessage::Status(s) if s == "Iniciando conversión con ffmpeg..."
    ));
    assert_eq!(progress_time("out_time_ms=1500000"), Some("1500000".to_string()));
    assert_eq!(progress_time("frame=3"), None);
}

#[test]
fn conversion_ends_once() {
    let ends = [
        (ConversionEnd::UnknownQuality, 1, false, ""),
        (ConversionEnd::NotStarted("x".to_string()), 2, false, "❌ No se pudo ejecutar ffmpeg: x"),
        (ConversionEnd::WaitFailed("x".to_string()), 2, false, "❌ Error: x"),
        (ConversionEnd::Failed, 2, false, "❌ Error en la conversión"),
        (ConversionEnd::Succeeded, 3, true, "✅ Conversión completada"),
    ];
    for (end, len, success, status) in ends {
        let m = closing_messages(end);
        assert_eq!(m.len(), len);
        assert!(matches!(m[len - 1], ProgressMessage::Completed(s) if s == success));
        if len > 1 {
            assert!(matches!(&m[len - 2], ProgressMessage::Status(s) if s == status));
        }
        if len > 2 {
            assert!(matches!(m[0], ProgressMessage::Progress { percentage: 100 }));
        }
    }
}

// Runs a conversion to its end. Returns its messages and whether it succeeded.
fn course(
    quality: usize,
    start: Result<(), String>,
    reports: &[i32],
    end: Result<bool, String>,
) -> (Vec<String>, bool) {
    let (mut start, mut end) = (Some(start), Some(end));
    let mut reports = reports.iter();
    let mut messages = Vec::new();
    let mut seen = ConversionEvent::Begun;
    loop {
        let step = perform_video_conversion_with_progress("in", "out", quality, 25, seen);
        for message in step.messages {
            messages.push(match message {
                ProgressMessage::Started => "started".to_string(),
                ProgressMessage::Progress { percentage } => format!("{}%", percentage),
                ProgressMessage::Status(status) => status,
                ProgressMessage::Completed(success) => format!("completed {}", success),
            });
        }
        seen = match step.action {
            ConversionAction::Analyze => ConversionEvent::Analyzed,
            ConversionAction::Start(arguments) => {
                assert_eq!(Some(arguments), conversion_arguments("in", "out", quality, 25));
                ConversionEvent::Started(start.take().unwrap())
            }
            ConversionAction::Read => match reports.next() {
                Some(percentage) => ConversionEvent::Reported {
                    percentage: *percentage,
                    status: "running".to_string(),
                },
                None => ConversionEvent::Ended(end.take().unwrap()),
            },
            ConversionAction::Finish(success) => return (messages, success),
        };
    }
}

#[test]
fn course_of_a_conversion() {
    let (first, second) = ("started", "Analizando video...");
    let launch = "Iniciando conversión con ffmpeg...";
    assert_eq!(
        course(1, Ok(()), &[-1, 40, 101], Ok(true)),
        (
            owned_texts(&[
                first,
                second,
                launch,
                "-1%",
                "running",
                "40%",
                "running",
                "100%",
                "running",
                "100%",
                "✅ Conversión completada",
                "completed true",
            ]),
            true
        )
    );
    assert_eq!(
        course(0, Ok(()), &[7], Ok(false)).0[3..],
        owned_texts(&["7%", "running", "❌ Error en la conversión", "completed false"])
    );
    assert_eq!(
        course(2, Ok(()), &[], Err("gone".to_string())).0[3..],
        owned_texts(&["❌ Error: gone", "completed false"])
    );
    assert_eq!(
        course(3, Err("none".to_string()), &[5], Ok(true)),
        (
            owned_texts(&[
                first,
                second,
                launch,
                "❌ No se pudo ejecutar ffmpeg: none",
                "completed false",
            ]),
            false
        )
    );
    assert_eq!(
        course(4, Ok(()), &[5], Ok(true)),
        (owned_texts(&[first, second, "completed false"]), false)
    );
}

#[test]
fn files_being_converted() {
    let mut c = ConvertingFiles::new();
    assert!(!c.contains("/a"));
    c.insert("/a");
    c.insert("/b");
    c.insert("/a");
    assert!(c.contains("/a") && c.contains("/b"));
    c.remove("/a");
    assert!(!c.contains("/a") && c.contains("/b"));
    c.remove("/x");
    assert!(c.contains("/b"));
}

#[test]
fn progress_of_a_conversion() {
    let mut m = Monitoring::new();
    let mut c = ConvertingFiles::new();
    begin_conversion(&mut m, &mut c, "/out");
    assert!(m.is_monitoring_paused() && c.contains("/out"));
    let v = take_progress(
        &mut m,
        &mut c,
        "/out",
        ProgressEvent::Message(ProgressMessage::Started),
        SECOND,
    );
    match &v {
        ProgressView::Begin { label, status } => {
            assert_eq!(label, "0%");
            assert_eq!(status, "<span size='small' color='#888'>Analizando video...</span>");
        }
        _ => panic!("no beginning"),
    }
    assert!(!v.is_last());
    let message = ProgressMessage::Progress { percentage: 42 };
    match take_progress(&mut m, &mut c, "/out", ProgressEvent::Message(message), SECOND) {
        ProgressView::Percentage { percentage, label } => {
            assert_eq!((percentage, label.as_str()), (42, "42%"))
        }
        _ => panic!("no percentage"),
    }
    let message = ProgressMessage::Status("hola".to_string());
    match take_progress(&mut m, &mut c, "/out", ProgressEvent::Message(message), SECOND) {
        ProgressView::Status(s) => {
            assert_eq!(s, "<span size='small' color='#888'>hola</span>")
        }
        _ => panic!("no status"),
    }
    let v = take_progress(&mut m, &mut c, "/out", ProgressEvent::Nothing, SECOND);
    assert!(matches!(v, ProgressView::Unchanged));
    assert!(m.is_monitoring_paused());
    let done = ProgressEvent::Message(ProgressMessage::Completed(true));
    let v = take_progress(&mut m, &mut c, "/out", done, SECOND);
    assert!(matches!(v, ProgressView::Succeeded) && v.is_last());
    assert!(!m.is_monitoring_paused() && m.has_pending_update() && !c.contains("/out"));
}

#[test]
fn failed_and_lost_conversions() {
    let mut m = Monitoring::new();
    let mut c = ConvertingFiles::new();
    begin_conversion(&mut m, &mut c, "/out");
    let failed = ProgressEvent::Message(ProgressMessage::Completed(false));
    let v = take_progress(&mut m, &mut c, "/out", failed, SECOND);
    assert!(matches!(v, ProgressView::Failed) && v.is_last());
    assert!(!m.is_monitoring_paused() && m.has_pending_update() && c.contains("/out"));
    begin_conversion(&mut m, &mut c, "/out");
    assert!(m.is_monitoring_paused());
    let v = take_progress(&mut m, &mut c, "/out", ProgressEvent::Closed, SECOND);
    assert!(matches!(v, ProgressView::Lost) && v.is_last());
    assert!(!m.is_monitoring_paused() && c.contains("/out"));
}
