use cinnamon_wallpaper::preview::{
    existing_frames, frame_paths, frame_pattern, frames_place, generate_preview_frames,
    preview_arguments, preview_directory, CardMode, CardRegistry, FramesPlace, FramesRun, Next,
    PreviewAnimation, PREVIEW_FRAMES,
};

type Registry = CardRegistry<&'static str, u32>;

fn registry(n: usize) -> Registry {
    let mut r: Registry = CardRegistry::new();
    for i in 0..n {
        assert_eq!(r.register_card(), i);
    }
    assert_eq!(r.len(), n);
    r
}

fn play(r: &mut Registry, card: usize, animation: u32) {
    assert_eq!(r.hover_enter(card).next, Next::Generate);
    assert!(r.frames_ready(CardMode::Gallery, card, Some("frames")).animate);
    r.animation_started(card, Some(animation));
}

fn playing(r: &Registry) -> Vec<usize> {
    (0..r.len()).filter(|i| r.card(*i).is_playing).collect()
}

#[test]
fn pointer_starts_a_preview() {
    let mut r = registry(1);
    let e = r.hover_enter(0);
    assert_eq!((e.next, e.stopped.len()), (Next::Generate, 0));
    assert!(r.card(0).preview_generating && !r.card(0).is_playing);
    assert_eq!(r.hover_enter(0).next, Next::Nothing);
    assert!(r.frames_ready(CardMode::Gallery, 0, Some("f")).animate);
    r.animation_started(0, Some(7));
    assert!(r.card(0).is_playing && !r.card(0).preview_generating);
    assert_eq!(r.card(0).preview_textures, Some("f"));
    assert_eq!(r.hover_enter(0).next, Next::Nothing);
}

#[test]
fn failed_frames_can_be_asked_for_again() {
    let mut r = registry(1);
    assert_eq!(r.hover_enter(0).next, Next::Generate);
    assert!(!r.frames_ready(CardMode::List, 0, None).animate);
    assert!(!r.card(0).is_playing);
    assert_eq!(r.hover_enter(0).next, Next::Generate);
}

#[test]
fn one_preview_at_a_time() {
    let mut r = registry(3);
    play(&mut r, 0, 10);
    let e = r.hover_enter(2);
    assert_eq!(e.stopped, vec![10]);
    assert!(playing(&r).is_empty());
    assert!(r.card(0).preview_timeout.is_none() && r.card(0).preview_textures.is_none());
    assert!(r.frames_ready(CardMode::Gallery, 2, Some("g")).animate);
    r.animation_started(2, Some(12));
    assert_eq!(playing(&r), vec![2]);
    let e = r.focus_enter(CardMode::Gallery, 1);
    assert_eq!((e.next, e.stopped), (Next::Load, vec![12]));
    assert!(r.focus_loaded(1, Some("h")).animate);
    r.animation_started(1, Some(13));
    assert_eq!(playing(&r), vec![1]);
}

#[test]
fn late_frames_start_only_under_the_pointer() {
    let mut r = registry(3);
    assert_eq!(r.hover_enter(0).next, Next::Generate);
    assert!(!r.hover_leave(CardMode::Gallery, 0).restore_poster);
    assert_eq!(r.hover_enter(1).next, Next::Generate);
    let s = r.frames_ready(CardMode::Gallery, 0, Some("f"));
    assert!(!s.animate && s.stopped.is_empty());
    assert!(playing(&r).is_empty());
    assert_eq!(r.card(0).preview_textures, Some("f"));
    assert!(r.frames_ready(CardMode::Gallery, 1, Some("g")).animate);
    r.animation_started(1, Some(11));
    assert_eq!(playing(&r), vec![1]);
    let e = r.hover_enter(0);
    assert_eq!((e.next, e.stopped), (Next::Animate, vec![11]));
    assert_eq!(playing(&r), vec![0]);
}

#[test]
fn late_frames_start_a_row_of_the_list() {
    let mut r = registry(4);
    for card in [0, 1, 3] {
        assert_eq!(r.hover_enter(card).next, Next::Generate);
        assert!(!r.hover_leave(CardMode::List, card).restore_poster);
    }
    for card in [0, 1, 3] {
        let s = r.frames_ready(CardMode::List, card, Some("f"));
        assert!(s.animate && s.stopped.is_empty());
        r.animation_started(card, Some(card as u32));
    }
    assert_eq!(playing(&r), vec![0, 1, 3]);
    assert_eq!(r.stop_other_previews(1), vec![0, 3]);
    assert_eq!(playing(&r), vec![1]);
    let e = r.hover_enter(2);
    assert_eq!((e.next, e.stopped), (Next::Generate, vec![1]));
}

#[test]
fn late_frames_stop_what_the_focus_started() {
    let mut r = registry(2);
    assert_eq!(r.hover_enter(0).next, Next::Generate);
    assert_eq!(r.focus_enter(CardMode::Gallery, 1).next, Next::Load);
    assert!(r.focus_loaded(1, Some("f")).animate);
    r.animation_started(1, Some(21));
    let s = r.frames_ready(CardMode::Gallery, 0, Some("g"));
    assert!(s.animate);
    assert_eq!(s.stopped, vec![21]);
    r.animation_started(0, Some(20));
    assert_eq!(playing(&r), vec![0]);
    assert_eq!(r.stop_other_previews(1), vec![20]);
    assert!(playing(&r).is_empty());
}

#[test]
fn card_that_goes_away_is_not_under_the_pointer() {
    let mut r = registry(1);
    assert_eq!(r.hover_enter(0).next, Next::Generate);
    assert_eq!(r.cleanup(0), None);
    assert!(!r.frames_ready(CardMode::Gallery, 0, Some("f")).animate);
    assert!(playing(&r).is_empty());
}

#[test]
fn gallery_keeps_frames() {
    let mut r = registry(1);
    play(&mut r, 0, 5);
    let l = r.hover_leave(CardMode::Gallery, 0);
    assert!(l.restore_poster);
    assert_eq!(l.animation, Some(5));
    assert_eq!(r.card(0).preview_textures, Some("frames"));
    assert_eq!(r.hover_enter(0).next, Next::Animate);
    assert!(r.card(0).is_playing);
}

#[test]
fn list_gives_frames_up() {
    let mut r = registry(1);
    play(&mut r, 0, 5);
    let l = r.hover_leave(CardMode::List, 0);
    assert_eq!((l.restore_poster, l.animation), (true, Some(5)));
    assert!(r.card(0).preview_textures.is_none());
    let l = r.hover_leave(CardMode::List, 0);
    assert_eq!((l.restore_poster, l.animation), (false, None));
    let e = r.focus_enter(CardMode::List, 0);
    assert_eq!((e.next, e.stopped.len()), (Next::Nothing, 0));
}

#[test]
fn focus_in_the_gallery() {
    let mut r = registry(2);
    assert_eq!(r.focus_enter(CardMode::Gallery, 0).next, Next::Load);
    assert!(!r.focus_loaded(0, None).animate);
    assert!(!r.card(0).is_playing);
    assert!(r.focus_loaded(0, Some("f")).animate);
    r.animation_started(0, None);
    assert!(r.card(0).is_playing);
    assert!(r.focus_leave(0).restore_poster);
    assert!(!r.card(0).is_playing && r.card(0).preview_textures.is_none());
    play(&mut r, 1, 3);
    assert!(r.hover_leave(CardMode::Gallery, 1).restore_poster);
    assert_eq!(r.focus_enter(CardMode::Gallery, 1).next, Next::Animate);
}

#[test]
fn late_frames_depend_on_the_layout() {
    let mut r = registry(1);
    play(&mut r, 0, 3);
    assert!(!r.frames_ready(CardMode::Gallery, 0, Some("again")).animate);
    assert!(!r.frames_ready(CardMode::List, 0, Some("again")).animate);
    assert_eq!(r.card(0).preview_timeout, Some(3));
    assert_eq!(r.cleanup(0), Some(3));
    assert!(!r.card(0).is_playing && r.card(0).preview_textures.is_none());
    assert_eq!(r.cleanup(0), None);
}

#[test]
fn frame_files() {
    assert_eq!(preview_directory("/l/a"), "/l/a/previews");
    assert_eq!(
        frame_paths("/p", "preview_1f", 2),
        vec!["/p/preview_1f_001.png".to_string(), "/p/preview_1f_002.png".to_string()]
    );
    assert_eq!(frame_paths("/p", "b", 1000)[999], "/p/b_1000.png");
    assert!(frame_paths("/p", "b", 0).is_empty());
    assert_eq!(frame_pattern("/p", "preview_1f"), "/p/preview_1f_%03d.png");
}

#[test]
fn frame_arguments() {
    assert_eq!(
        preview_arguments("/v.mp4", PREVIEW_FRAMES, "/p/%03d.png").join(" "),
        "-loglevel error -ss 1 -t 3.000 -i /v.mp4 -vf \
         fps=20.000,scale=320:-1:force_original_aspect_ratio=decrease:flags=lanczos -y /p/%03d.png"
    );
    for count in [0usize, 1, 2, 3, 4, 5, 10, 59, 100, 12345, 999_999_999_999] {
        let wanted = format!("fps={:.3},", (count as f64 / 3.0_f64).max(1.0));
        assert!(preview_arguments("v", count, "p")[9].starts_with(&wanted), "{}", wanted);
    }
}

#[test]
fn frames_that_are_there() {
    let own = frame_paths("/own", "b", 2);
    assert_eq!(existing_frames(own.clone(), &vec![true, true]), Some(own.clone()));
    assert_eq!(existing_frames(own.clone(), &vec![true, false]), None);
    assert_eq!(existing_frames(vec![], &vec![]), Some(vec![]));
}

#[test]
fn place_of_new_frames() {
    for assets_there in [false, true] {
        assert_eq!(frames_place(false, false, assets_there), None);
        let place = if assets_there { FramesPlace::Own } else { FramesPlace::Common };
        for (own, common) in [(true, false), (false, true), (true, true)] {
            assert_eq!(frames_place(own, common, assets_there), Some(place));
        }
    }
}

#[test]
fn frames_after_the_tool_ran() {
    let own = frame_paths("/own", "b", 3);
    let global = frame_paths("/all", "b", 3);
    let done = FramesRun::Done {
        own_there: vec![true, false, false],
        global_there: vec![true, true, false],
    };
    assert_eq!(
        generate_preview_frames(&own, &global, done),
        Some(vec!["/own/b_001.png".to_string(), "/all/b_002.png".to_string()])
    );
    let none = FramesRun::Done { own_there: vec![false; 3], global_there: vec![false; 3] };
    assert_eq!(generate_preview_frames(&own, &global, none), None);
    assert_eq!(generate_preview_frames(&own, &global, FramesRun::Failed), None);
    assert_eq!(generate_preview_frames(&own, &global, FramesRun::NotStarted), None);
}

#[test]
fn animation_goes_round() {
    assert!(PreviewAnimation::new(0).is_none());
    let mut a = PreviewAnimation::new(3).unwrap();
    let shown: Vec<usize> = (0..7).map(|_| a.next_frame()).collect();
    assert_eq!(shown, vec![0, 1, 2, 0, 1, 2, 0]);
}
