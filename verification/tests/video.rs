use cinnamon_wallpaper::config::VideoConfig;
use cinnamon_wallpaper::video::{
    channel_size, extract_frame_from_sample, pixel_format, scaling_method, sink_buffers, AfterWait,
    LoadOutcome, PixelFormat, PlayOutcome, PlayerState, Received, RestartAction, Sample,
    SampleFormat, VideoError, VideoFrame, VideoPlayer,
};

fn config() -> VideoConfig {
    VideoConfig::default()
}

fn loaded() -> VideoPlayer {
    let mut p = VideoPlayer::new(&config(), 1920, 1080);
    assert!(p.load_video("/v.mp4", LoadOutcome::Ready).is_ok());
    p
}

fn frame() -> VideoFrame {
    VideoFrame {
        width: 1,
        height: 1,
        data: vec![1, 2, 3, 4],
        format: PixelFormat::Bgra32,
        pts_nanos: Some(7),
    }
}

#[test]
fn scaling_quality_bands() {
    for q in [0, 1, 2, 3] {
        assert_eq!(scaling_method(q), "nearest");
    }
    for q in [4, 5, 6, 7] {
        assert_eq!(scaling_method(q), "bilinear");
    }
    for q in [8, 9, 10, 255] {
        assert_eq!(scaling_method(q), "lanczos");
    }
}

#[test]
fn buffer_sizes() {
    assert_eq!(channel_size(0), 16);
    assert_eq!(channel_size(1), 4);
    assert_eq!(channel_size(2), 4);
    assert_eq!(channel_size(3), 6);
    assert_eq!(sink_buffers(0), 3);
    assert_eq!(sink_buffers(9), 9);
}

#[test]
fn pipeline_of_a_video() {
    let mut c = config();
    let p = VideoPlayer::new(&c, 1920, 1080);
    assert_eq!(
        p.pipeline_description("/v/a b.mp4", "/cwd"),
        "uridecodebin uri=\"file:///v/a b.mp4\" name=decoder ! videoconvert ! videoscale \
         method=lanczos add-borders=false ! video/x-raw,width=1920,height=1080 ! videoconvert \
         ! video/x-raw,format=BGRA ! appsink name=appsink drop=true"
    );
    c.target_fps = 30;
    c.scaling_quality = 4;
    let p = VideoPlayer::new(&c, 800, 600);
    assert_eq!(
        p.pipeline_description("a.mp4", "/cwd"),
        "uridecodebin uri=\"file:///cwd/a.mp4\" name=decoder ! videoconvert ! videoscale \
         method=bilinear add-borders=false ! video/x-raw,width=800,height=600 ! videoconvert \
         ! videorate ! video/x-raw,framerate=30/1 ! video/x-raw,format=BGRA ! appsink \
         name=appsink drop=true"
    );
}

#[test]
fn frames_of_samples() {
    let f = extract_frame_from_sample(Sample::Mapped {
        data: vec![9, 8],
        width: 2,
        height: 3,
        format: SampleFormat::Rgb,
        pts: Some(40),
    })
    .ok()
    .unwrap();
    assert_eq!((f.width, f.height, f.data, f.pts_nanos), (2, 3, vec![9, 8], Some(40)));
    assert_eq!(f.format, PixelFormat::Rgb24);
    for (sample, message) in [
        (Sample::NoBuffer, "No buffer in sample"),
        (Sample::NoCaps, "No caps in sample"),
        (Sample::NotVideo, "Failed to get video info from caps"),
        (Sample::Unmapped, "Failed to map buffer"),
    ] {
        assert_eq!(extract_frame_from_sample(sample).err().unwrap().message(), message);
    }
}

#[test]
fn pixel_formats() {
    assert_eq!(pixel_format(SampleFormat::Bgra), PixelFormat::Bgra32);
    assert_eq!(pixel_format(SampleFormat::Rgba), PixelFormat::Rgba32);
    assert_eq!(pixel_format(SampleFormat::Bgr), PixelFormat::Bgr24);
    assert_eq!(pixel_format(SampleFormat::Other), PixelFormat::Bgra32);
}

#[test]
fn loading_failures() {
    for (outcome, message) in [
        (LoadOutcome::Missing, "Video file not found: /x.mp4"),
        (LoadOutcome::StopRefused, "Failed to set pipeline to null state"),
        (LoadOutcome::PipelineFailed, "Failed to create GStreamer pipeline"),
        (LoadOutcome::NotAPipeline, "Failed to downcast to Pipeline"),
        (LoadOutcome::NoSink, "Failed to get appsink from pipeline"),
        (LoadOutcome::NotASink, "Failed to downcast to AppSink"),
    ] {
        let mut p = VideoPlayer::new(&config(), 1, 1);
        assert_eq!(p.load_video("/x.mp4", outcome).err().unwrap().message(), message);
        assert!(!p.is_loaded());
    }
}

#[test]
fn failed_load_stops_the_previous_video() {
    let mut p = loaded();
    assert!(p.play(PlayOutcome::Success).is_ok());
    assert!(p.load_video("/x.mp4", LoadOutcome::NoSink).is_err());
    assert_eq!(p.state(), PlayerState::Stopped);
    assert!(p.is_loaded());
}

#[test]
fn playing_and_stopping() {
    let mut p = loaded();
    assert!(p.needs_start());
    assert!(p.play(PlayOutcome::Async).is_ok());
    assert_eq!(p.state(), PlayerState::Playing);
    assert!(!p.needs_start());
    assert_eq!(
        p.play(PlayOutcome::Reported("e".to_string(), "d".to_string())).err().unwrap().message(),
        "Pipeline error: e - Debug: d"
    );
    assert_eq!(
        p.play(PlayOutcome::Failed("no".to_string())).err().unwrap().message(),
        "Failed to set pipeline to playing state: no"
    );
    assert!(matches!(p.stop(false), Err(VideoError::StopFailed)));
    assert_eq!(p.state(), PlayerState::Playing);
    assert!(p.stop(true).is_ok());
    assert_eq!(p.state(), PlayerState::Stopped);
}

#[test]
fn frames_come_only_from_a_loaded_video() {
    let p = loaded();
    assert_eq!(p.next_frame(Received::Frame(frame())).unwrap().data, vec![1, 2, 3, 4]);
    let copy = frame().clone();
    assert_eq!((copy.data, copy.width, copy.pts_nanos), (vec![1, 2, 3, 4], 1, Some(7)));
    assert!(p.next_frame(Received::Closed).is_none());
    assert!(p.next_frame(Received::TimedOut).is_none());
    let empty = VideoPlayer::new(&config(), 1, 1);
    assert!(empty.next_frame(Received::Frame(frame())).is_none());
}

#[test]
fn looping_video_starts_again() {
    let mut p = loaded();
    p.end_of_stream();
    assert_eq!(p.state(), PlayerState::EndOfStream);
    assert_eq!(p.restart_action(), RestartAction::Seek);
    assert!(!p.restart_stops(true) && p.restart_stops(false));
    assert!(p.restart(true, false).is_ok());
    assert_eq!(p.state(), PlayerState::Playing);
    assert!(p.restart(false, true).is_ok());
    assert_eq!(p.state(), PlayerState::Stopped);
}

#[test]
fn video_without_looping_stops() {
    let mut c = config();
    c.loop_playback = false;
    let mut p = VideoPlayer::new(&c, 1, 1);
    assert_eq!(p.restart_action(), RestartAction::Stop);
    assert!(p.restart_stops(true));
    assert!(p.restart(true, true).is_ok());
    assert!(p.load_video("/v.mp4", LoadOutcome::Ready).is_ok());
    assert!(p.play(PlayOutcome::NoPreroll).is_ok());
    assert!(p.restart(true, false).is_err());
    assert_eq!(p.state(), PlayerState::Playing);
    assert!(p.restart(true, true).is_ok());
    assert_eq!(p.state(), PlayerState::Stopped);
    let empty = VideoPlayer::new(&config(), 1, 1);
    assert_eq!(empty.restart_action(), RestartAction::Nothing);
}

#[test]
fn video_without_looping_plays_once() {
    let mut c = config();
    c.loop_playback = false;
    let mut p = VideoPlayer::new(&c, 1, 1);
    assert!(p.load_video("/v.mp4", LoadOutcome::Ready).is_ok());
    assert!(p.needs_start());
    assert!(p.play(PlayOutcome::Success).is_ok());
    p.end_of_stream();
    assert!(matches!(p.after_wait(Received::TimedOut), AfterWait::Ended));
    assert!(p.restart(true, true).is_ok());
    assert!(!p.needs_start());
    assert!(matches!(p.after_wait(Received::TimedOut), AfterWait::Wait));
    assert!(p.load_video("/w.mp4", LoadOutcome::Ready).is_ok());
    assert!(p.needs_start());
    // A pipeline that is stopped before the end can be started again.
    assert!(p.play(PlayOutcome::Success).is_ok() && p.stop(true).is_ok());
    assert!(p.needs_start());
    // So can a looping one that would not seek.
    let mut p = loaded();
    assert!(p.play(PlayOutcome::Success).is_ok());
    p.end_of_stream();
    assert!(p.restart(false, true).is_ok());
    assert!(p.needs_start());
}

#[test]
fn late_frame_is_waited_for() {
    let mut p = loaded();
    assert!(p.play(PlayOutcome::Success).is_ok());
    match p.after_wait(Received::Frame(frame())) {
        AfterWait::Show(f) => assert_eq!(f.data, vec![1, 2, 3, 4]),
        _ => panic!("no frame"),
    }
    assert!(matches!(p.after_wait(Received::TimedOut), AfterWait::Wait));
    assert!(matches!(p.after_wait(Received::Closed), AfterWait::Ended));
    p.end_of_stream();
    assert!(matches!(p.after_wait(Received::Frame(frame())), AfterWait::Show(_)));
    assert!(matches!(p.after_wait(Received::TimedOut), AfterWait::Ended));
    assert!(p.restart(true, false).is_ok());
    assert!(matches!(p.after_wait(Received::TimedOut), AfterWait::Wait));
    let empty = VideoPlayer::new(&config(), 1, 1);
    assert!(matches!(empty.after_wait(Received::Frame(frame())), AfterWait::Ended));
}
