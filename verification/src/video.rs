//! The video player: what a pipeline is made of, the frames that come out of it,
//! and the playback state.

use crate::config::VideoConfig;
use crate::paths::{absolute, is_absolute, join_path, joined, law_extension_of_a_path};
use crate::text::{contains_seq, decimal, decimal_text, law_pattern_is_found};
use vstd::prelude::*;
use vstd::string::*;

verus! {

/// Pixel format for video frames.
#[derive(Debug, Clone, Copy, PartialEq, Eq, Structural)]
pub enum PixelFormat {
    Rgb24,
    Bgr24,
    Rgba32,
    Bgra32,
}

/// Video frame data.
#[derive(Debug)]
pub struct VideoFrame {
    pub width: u32,
    pub height: u32,
    pub data: Vec<u8>,
    pub format: PixelFormat,
    pub pts_nanos: Option<u128>,
}

impl Clone for VideoFrame {
    fn clone(&self) -> (f: Self)
        ensures
            f.width == self.width,
            f.height == self.height,
            f.data@ == self.data@,
            f.format == self.format,
            f.pts_nanos == self.pts_nanos,
    {
        VideoFrame {
            width: self.width,
            height: self.height,
            data: copy_bytes(&self.data),
            format: self.format,
            pts_nanos: self.pts_nanos,
        }
    }
}

/// The same bytes once more.
pub(crate) fn copy_bytes(data: &Vec<u8>) -> (copy: Vec<u8>)
    ensures
        copy@ == data@,
{
    let mut copy: Vec<u8> = Vec::new();
    copy.extend_from_slice(data.as_slice());
    assert(copy@ =~= data@);
    copy
}

/// Video player state.
#[derive(Debug, Clone, Copy, PartialEq, Eq, Structural)]
pub enum PlayerState {
    Stopped,
    Playing,
    EndOfStream,
}

/// The pixel format that a sample declares.
#[derive(Debug, Clone, Copy, PartialEq, Eq, Structural)]
pub enum SampleFormat {
    Bgra,
    Rgba,
    Rgb,
    Bgr,
    Other,
}

/// What could be read of a sample.
pub enum Sample {
    /// It carries no buffer.
    NoBuffer,
    /// It carries no description of its contents.
    NoCaps,
    /// Its description is not that of a video.
    NotVideo,
    /// Its buffer cannot be mapped.
    Unmapped,
    /// Its contents.
    Mapped {
        data: Vec<u8>,
        width: u32,
        height: u32,
        format: SampleFormat,
        pts: Option<u64>,
    },
}

/// Why the player could not do something.
pub enum VideoError {
    /// There is no such video file.
    NotFound(String),
    /// The pipeline could not be made.
    PipelineFailed,
    /// What was made is not a pipeline.
    NotAPipeline,
    /// The pipeline has no sink.
    NoSink,
    /// The pipeline's sink is of another kind.
    NotASink,
    /// The pipeline would not stop.
    StopFailed,
    /// The pipeline would not play, and reported why.
    PipelineError(String, String),
    /// The pipeline would not play.
    PlayFailed(String),
    /// A sample without a buffer.
    NoBuffer,
    /// A sample without a description.
    NoCaps,
    /// A sample that is not video.
    NotVideo,
    /// A sample whose buffer cannot be mapped.
    Unmapped,
}

/// The message for an error.
pub open spec fn video_error_text(e: VideoError) -> Seq<char> {
    match e {
        VideoError::NotFound(path) => "Video file not found: "@ + path@,
        VideoError::PipelineFailed => "Failed to create GStreamer pipeline"@,
        VideoError::NotAPipeline => "Failed to downcast to Pipeline"@,
        VideoError::NoSink => "Failed to get appsink from pipeline"@,
        VideoError::NotASink => "Failed to downcast to AppSink"@,
        VideoError::StopFailed => "Failed to set pipeline to null state"@,
        VideoError::PipelineError(error, debug) => "Pipeline error: "@ + error@ + " - Debug: "@
            + debug@,
        VideoError::PlayFailed(error) => "Failed to set pipeline to playing state: "@ + error@,
        VideoError::NoBuffer => "No buffer in sample"@,
        VideoError::NoCaps => "No caps in sample"@,
        VideoError::NotVideo => "Failed to get video info from caps"@,
        VideoError::Unmapped => "Failed to map buffer"@,
    }
}

/// A complaint that has a cause gives it in full: the path, the error, or the error with its
/// details.
pub proof fn law_video_error_gives_its_cause(cause: String, details: String)
    ensures
        video_error_text(VideoError::NotFound(cause)) == "Video file not found: "@ + cause@,
        video_error_text(VideoError::PlayFailed(cause))
            == "Failed to set pipeline to playing state: "@ + cause@,
        video_error_text(VideoError::PipelineError(cause, details)) == "Pipeline error: "@ + cause@
            + " - Debug: "@ + details@,
{
}

impl VideoError {
    /// The message to show for this error.
    pub fn message(&self) -> (text: String)
        ensures
            text@ == video_error_text(*self),
    {
        match self {
            VideoError::NotFound(path) => "Video file not found: ".to_owned().concat(path.as_str()),
            VideoError::PipelineFailed => "Failed to create GStreamer pipeline".to_owned(),
            VideoError::NotAPipeline => "Failed to downcast to Pipeline".to_owned(),
            VideoError::NoSink => "Failed to get appsink from pipeline".to_owned(),
            VideoError::NotASink => "Failed to downcast to AppSink".to_owned(),
            VideoError::StopFailed => "Failed to set pipeline to null state".to_owned(),
            VideoError::PipelineError(error, debug) => "Pipeline error: ".to_owned().concat(
                error.as_str(),
            ).concat(" - Debug: ").concat(debug.as_str()),
            VideoError::PlayFailed(error) => "Failed to set pipeline to playing state: ".to_owned().concat(
                error.as_str(),
            ),
            VideoError::NoBuffer => "No buffer in sample".to_owned(),
            VideoError::NoCaps => "No caps in sample".to_owned(),
            VideoError::NotVideo => "Failed to get video info from caps".to_owned(),
            VideoError::Unmapped => "Failed to map buffer".to_owned(),
        }
    }
}

/// How loading a video went.
pub enum LoadOutcome {
    /// There is no such file.
    Missing,
    /// The previous pipeline would not stop.
    StopRefused,
    /// The new pipeline could not be made.
    PipelineFailed,
    /// What was made is not a pipeline.
    NotAPipeline,
    /// The new pipeline has no sink.
    NoSink,
    /// The sink is of another kind.
    NotASink,
    /// The new pipeline is ready.
    Ready,
}

/// How the change to the playing state went.
pub enum PlayOutcome {
    Success,
    /// The change is under way; it is waited for.
    Async,
    NoPreroll,
    /// It failed, and the pipeline reported an error with its details.
    Reported(String, String),
    /// It failed.
    Failed(String),
}

/// What came over the frame channel.
pub enum Received {
    Frame(VideoFrame),
    /// The sender is gone.
    Closed,
    /// Nothing within the waiting time.
    TimedOut,
}

/// What to do after waiting for a frame.
pub enum AfterWait {
    /// Show the frame.
    Show(VideoFrame),
    /// Go on waiting.
    Wait,
    /// The video has ended: start it anew, where that is wanted.
    Ended,
}

/// What to do with the pipeline when the video has ended.
#[derive(Debug, Clone, Copy, PartialEq, Eq, Structural)]
pub enum RestartAction {
    /// Nothing is loaded.
    Nothing,
    /// Seek to the beginning.
    Seek,
    /// Stop.
    Stop,
}

/// How long to wait for a frame, in milliseconds.
pub const FRAME_TIMEOUT_MS: u64 = 100;

/// How long to wait for an asynchronous state change, in seconds.
pub const STATE_CHANGE_TIMEOUT_S: u64 = 5;

/// How long to wait for the pipeline's error report, in seconds.
pub const ERROR_REPORT_TIMEOUT_S: u64 = 1;

/// The scaling method for a quality from 1 to 10: 1-3 scales fast, 4-7 gives
/// medium quality, 8-10 the best.
pub open spec fn scaling_method_text(quality: u8) -> Seq<char> {
    if quality >= 8 {
        "lanczos"@
    } else if quality >= 4 {
        "bilinear"@
    } else {
        "nearest"@
    }
}

/// The scaling method for a quality.
pub fn scaling_method(quality: u8) -> (method: &'static str)
    ensures
        method@ == scaling_method_text(quality),
{
    if quality >= 8 {
        "lanczos"
    } else if quality >= 4 {
        "bilinear"
    } else {
        "nearest"
    }
}

/// How many frames the channel to the renderer holds: twice the configured
/// number and at least 4, or 16 when none is configured.
pub fn channel_size(max_buffer_frames: u32) -> (size: usize)
    ensures
        size == if max_buffer_frames == 0 {
            16
        } else if 2 * max_buffer_frames > usize::MAX {
            usize::MAX as int
        } else if 2 * max_buffer_frames < 4 {
            4
        } else {
            2 * max_buffer_frames
        },
{
    if max_buffer_frames == 0 {
        16
    } else {
        let n: usize = max_buffer_frames as usize;
        if n > usize::MAX / 2 {
            usize::MAX
        } else if n < 2 {
            4
        } else {
            2 * n
        }
    }
}

/// How many frames the sink buffers: the configured number, or 3 when none is
/// configured.
pub fn sink_buffers(max_buffer_frames: u32) -> (n: u32)
    ensures
        n == if max_buffer_frames == 0 {
            3
        } else {
            max_buffer_frames
        },
{
    if max_buffer_frames == 0 {
        3
    } else {
        max_buffer_frames
    }
}

/// The pixel format of a sample; one that is not known is taken for BGRA.
pub open spec fn pixel_format_of(format: SampleFormat) -> PixelFormat {
    match format {
        SampleFormat::Bgra => PixelFormat::Bgra32,
        SampleFormat::Rgba => PixelFormat::Rgba32,
        SampleFormat::Rgb => PixelFormat::Rgb24,
        SampleFormat::Bgr => PixelFormat::Bgr24,
        SampleFormat::Other => PixelFormat::Bgra32,
    }
}

/// The pixel format of a sample.
pub fn pixel_format(format: SampleFormat) -> (p: PixelFormat)
    ensures
        p == pixel_format_of(format),
{
    match format {
        SampleFormat::Bgra => PixelFormat::Bgra32,
        SampleFormat::Rgba => PixelFormat::Rgba32,
        SampleFormat::Rgb => PixelFormat::Rgb24,
        SampleFormat::Bgr => PixelFormat::Bgr24,
        SampleFormat::Other => PixelFormat::Bgra32,
    }
}

/// The frame that a sample holds.
pub fn extract_frame_from_sample(sample: Sample) -> (frame: Result<VideoFrame, VideoError>)
    ensures
        match sample {
            Sample::NoBuffer => frame == Err::<VideoFrame, VideoError>(VideoError::NoBuffer),
            Sample::NoCaps => frame == Err::<VideoFrame, VideoError>(VideoError::NoCaps),
            Sample::NotVideo => frame == Err::<VideoFrame, VideoError>(VideoError::NotVideo),
            Sample::Unmapped => frame == Err::<VideoFrame, VideoError>(VideoError::Unmapped),
            Sample::Mapped { data, width, height, format, pts } => frame == Ok::<
                VideoFrame,
                VideoError,
            >(
                VideoFrame {
                    width,
                    height,
                    data,
                    format: pixel_format_of(format),
                    pts_nanos: match pts {
                        Some(nanos) => Some(nanos as u128),
                        None => None,
                    },
                },
            ),
        },
{
    match sample {
        Sample::NoBuffer => Err(VideoError::NoBuffer),
        Sample::NoCaps => Err(VideoError::NoCaps),
        Sample::NotVideo => Err(VideoError::NotVideo),
        Sample::Unmapped => Err(VideoError::Unmapped),
        Sample::Mapped { data, width, height, format, pts } => Ok(
            VideoFrame {
                width,
                height,
                data,
                format: pixel_format(format),
                pts_nanos: match pts {
                    Some(nanos) => Some(nanos as u128),
                    None => None,
                },
            },
        ),
    }
}

/// The address of a video file; a relative path is taken from `current_dir`.
pub open spec fn video_uri(path: Seq<char>, current_dir: Seq<char>) -> Seq<char> {
    "file://"@ + (if absolute(path) {
        path
    } else {
        joined(current_dir, path)
    })
}

/// The part of a pipeline that limits the frame rate; nothing for 0.
pub open spec fn rate_text(target_fps: u32) -> Seq<char> {
    if target_fps > 0 {
        " ! videorate ! video/x-raw,framerate="@ + decimal(target_fps as nat) + "/1"@
    } else {
        Seq::<char>::empty()
    }
}

/// The pipeline that plays the video at `uri` at the given size.
pub open spec fn pipeline_text(
    uri: Seq<char>,
    config: VideoConfig,
    width: u32,
    height: u32,
) -> Seq<char> {
    "uridecodebin uri=\""@ + uri + "\" name=decoder"@ + " ! videoconvert"@
        + " ! videoscale method="@ + scaling_method_text(config.scaling_quality)
        + " add-borders=false ! video/x-raw,width="@ + decimal(width as nat) + ",height="@ + decimal(
        height as nat,
    ) + " ! videoconvert"@ + rate_text(config.target_fps) + " ! video/x-raw,format=BGRA"@
        + " ! appsink name=appsink drop=true"@
}

/// The quality goes from 1 to 10 in three bands, each with its own scaling method.
pub proof fn law_scaling_bands(quality: u8)
    ensures
        quality <= 3 ==> scaling_method_text(quality) == "nearest"@,
        4 <= quality <= 7 ==> scaling_method_text(quality) == "bilinear"@,
        8 <= quality ==> scaling_method_text(quality) == "lanczos"@,
{
}

/// Every frame rate but 0 limits the pipeline to just that rate.
pub proof fn law_every_rate_limits_the_pipeline(
    uri: Seq<char>,
    config: VideoConfig,
    width: u32,
    height: u32,
)
    requires
        config.target_fps > 0,
    ensures
        contains_seq(
            pipeline_text(uri, config, width, height),
            " ! videorate ! video/x-raw,framerate="@ + decimal(config.target_fps as nat) + "/1"@,
        ),
{
    let before = "uridecodebin uri=\""@ + uri + "\" name=decoder"@ + " ! videoconvert"@
        + " ! videoscale method="@ + scaling_method_text(config.scaling_quality)
        + " add-borders=false ! video/x-raw,width="@ + decimal(width as nat) + ",height="@ + decimal(
        height as nat,
    ) + " ! videoconvert"@;
    let rate = " ! videorate ! video/x-raw,framerate="@ + decimal(config.target_fps as nat) + "/1"@;
    let after = " ! video/x-raw,format=BGRA"@ + " ! appsink name=appsink drop=true"@;
    law_pattern_is_found(before, rate, after);
    assert(pipeline_text(uri, config, width, height) =~= before + rate + after);
}

/// A frame rate adds the part that limits it, directly before the pixel format, and changes
/// nothing else of the pipeline.
pub proof fn law_rate_is_all_that_a_limit_adds(
    uri: Seq<char>,
    config: VideoConfig,
    width: u32,
    height: u32,
)
    requires
        config.target_fps > 0,
    ensures
        ({
            let plain = pipeline_text(uri, VideoConfig { target_fps: 0, ..config }, width, height);
            let tail = " ! video/x-raw,format=BGRA ! appsink name=appsink drop=true"@;
            &&& plain.len() >= tail.len()
            &&& plain.skip(plain.len() - tail.len()) == tail
            &&& pipeline_text(uri, config, width, height) == plain.take(plain.len() - tail.len())
                + " ! videorate ! video/x-raw,framerate="@ + decimal(config.target_fps as nat)
                + "/1"@ + tail
        }),
{
    reveal_strlit(" ! video/x-raw,format=BGRA");
    reveal_strlit(" ! appsink name=appsink drop=true");
    reveal_strlit(" ! video/x-raw,format=BGRA ! appsink name=appsink drop=true");
    let tail = " ! video/x-raw,format=BGRA ! appsink name=appsink drop=true"@;
    assert(tail =~= " ! video/x-raw,format=BGRA"@ + " ! appsink name=appsink drop=true"@);
    let before = "uridecodebin uri=\""@ + uri + "\" name=decoder"@ + " ! videoconvert"@
        + " ! videoscale method="@ + scaling_method_text(config.scaling_quality)
        + " add-borders=false ! video/x-raw,width="@ + decimal(width as nat) + ",height="@ + decimal(
        height as nat,
    ) + " ! videoconvert"@;
    let plain = pipeline_text(uri, VideoConfig { target_fps: 0, ..config }, width, height);
    assert(plain =~= before + tail);
    assert(plain.take(plain.len() - tail.len()) =~= before);
    assert(plain.skip(plain.len() - tail.len()) =~= tail);
}

/// Without a frame rate the pipeline decodes the address, scales to the size with the method
/// of the quality, and hands on BGRA frames: nothing in it limits the rate.
pub proof fn law_no_rate_no_limit(uri: Seq<char>, config: VideoConfig, width: u32, height: u32)
    requires
        config.target_fps == 0,
    ensures
        pipeline_text(uri, config, width, height) == "uridecodebin uri=\""@ + uri
            + "\" name=decoder ! videoconvert ! videoscale method="@ + scaling_method_text(
            config.scaling_quality,
        ) + " add-borders=false ! video/x-raw,width="@ + decimal(width as nat) + ",height="@
            + decimal(height as nat)
            + " ! videoconvert ! video/x-raw,format=BGRA ! appsink name=appsink drop=true"@,
{
    reveal_strlit("\" name=decoder");
    reveal_strlit(" ! videoconvert");
    reveal_strlit(" ! videoscale method=");
    reveal_strlit("\" name=decoder ! videoconvert ! videoscale method=");
    reveal_strlit(" ! video/x-raw,format=BGRA");
    reveal_strlit(" ! appsink name=appsink drop=true");
    reveal_strlit(" ! videoconvert ! video/x-raw,format=BGRA ! appsink name=appsink drop=true");
    assert("\" name=decoder ! videoconvert ! videoscale method="@ =~= "\" name=decoder"@
        + " ! videoconvert"@ + " ! videoscale method="@);
    assert(" ! videoconvert ! video/x-raw,format=BGRA ! appsink name=appsink drop=true"@
        =~= " ! videoconvert"@ + " ! video/x-raw,format=BGRA"@
        + " ! appsink name=appsink drop=true"@);
    let scaled = scaling_method_text(config.scaling_quality)
        + " add-borders=false ! video/x-raw,width="@ + decimal(width as nat) + ",height="@ + decimal(
        height as nat,
    );
    assert(pipeline_text(uri, config, width, height) =~= "uridecodebin uri=\""@ + uri
        + "\" name=decoder ! videoconvert ! videoscale method="@ + scaled
        + " ! videoconvert ! video/x-raw,format=BGRA ! appsink name=appsink drop=true"@);
}

/// The address of a video is that of its file: an absolute path as it is, a relative one
/// behind the current directory.
pub proof fn law_address_of_a_video(path: Seq<char>, current_dir: Seq<char>)
    ensures
        path.len() > 0 && path[0] == '/' ==> video_uri(path, current_dir) == "file://"@ + path,
        path.len() > 0 && path[0] != '/' && current_dir.len() > 0 && current_dir.last() != '/'
            ==> video_uri(path, current_dir) == "file://"@ + current_dir + "/"@ + path,
        path.len() > 0 && path[0] != '/' && current_dir.len() > 0 && current_dir.last() == '/'
            ==> video_uri(path, current_dir) == "file://"@ + current_dir + path,
{
    reveal_strlit("/");
    law_extension_of_a_path(current_dir, path);
    if path.len() > 0 && path[0] != '/' && current_dir.len() > 0 {
        if current_dir.last() != '/' {
            assert(video_uri(path, current_dir) =~= "file://"@ + current_dir + "/"@ + path);
        } else {
            assert(video_uri(path, current_dir) =~= "file://"@ + current_dir + path);
        }
    }
}

/// A sample keeps its pixel format; only one that is not known is taken for BGRA.
pub proof fn law_sample_keeps_its_format(format: SampleFormat)
    ensures
        pixel_format_of(format) == PixelFormat::Rgba32 <==> format == SampleFormat::Rgba,
        pixel_format_of(format) == PixelFormat::Rgb24 <==> format == SampleFormat::Rgb,
        pixel_format_of(format) == PixelFormat::Bgr24 <==> format == SampleFormat::Bgr,
{
}

/// Video player for wallpaper playback.
#[derive(Debug)]
pub struct VideoPlayer {
    config: VideoConfig,
    state: PlayerState,
    current_video_path: Option<String>,
    screen_width: u32,
    screen_height: u32,
    ended: bool,
}

/// What a video player knows.
pub struct PlayerView {
    pub config: VideoConfig,
    pub state: PlayerState,
    /// The video whose pipeline is loaded.
    pub video: Option<Seq<char>>,
    pub screen_width: u32,
    pub screen_height: u32,
    /// The video was stopped because it had ended and is not to loop.
    pub ended: bool,
}

impl View for VideoPlayer {
    type V = PlayerView;

    closed spec fn view(&self) -> PlayerView {
        PlayerView {
            config: self.config,
            state: self.state,
            video: crate::text::opt_text(self.current_video_path),
            screen_width: self.screen_width,
            screen_height: self.screen_height,
            ended: self.ended,
        }
    }
}

/// The player after an attempt to stop its pipeline.
pub open spec fn stopped(p: PlayerView, accepted: bool) -> PlayerView {
    if p.video is Some && accepted {
        PlayerView { state: PlayerState::Stopped, ..p }
    } else {
        p
    }
}

/// The player after an attempt to stop its pipeline because the video has ended.
pub open spec fn stopped_at_end(p: PlayerView, accepted: bool) -> PlayerView {
    if p.video is Some && accepted {
        PlayerView { state: PlayerState::Stopped, ended: true, ..p }
    } else {
        p
    }
}

/// Playback is to be started before the next frame is asked for: it is stopped, and not
/// because the video has ended.
pub open spec fn needs_start_of(p: PlayerView) -> bool {
    p.state == PlayerState::Stopped && !p.ended
}

/// What to do after waiting for a frame, given what came: a frame is shown; when none came
/// in time it is waited for further, unless the stream has come to its end; and when it has,
/// or no frame can come any more, the video has ended.
pub open spec fn after_wait_of(p: PlayerView, received: Received) -> AfterWait {
    if p.video is None {
        AfterWait::Ended
    } else {
        match received {
            Received::Frame(frame) => AfterWait::Show(frame),
            Received::Closed => AfterWait::Ended,
            Received::TimedOut => if p.state == PlayerState::EndOfStream {
                AfterWait::Ended
            } else {
                AfterWait::Wait
            },
        }
    }
}

/// A video that plays is never started anew because a frame is late: only when its stream
/// has come to its end.
pub proof fn law_late_frame_is_waited_for(p: PlayerView)
    requires
        p.video is Some,
    ensures
        after_wait_of(p, Received::TimedOut) == AfterWait::Ended <==> p.state
            == PlayerState::EndOfStream,
        after_wait_of(p, Received::TimedOut) == AfterWait::Wait <==> p.state
            != PlayerState::EndOfStream,
{
}

/// What to do when the video has ended.
pub open spec fn restart_action_of(p: PlayerView) -> RestartAction {
    if p.config.loop_playback {
        if p.video is Some {
            RestartAction::Seek
        } else {
            RestartAction::Nothing
        }
    } else {
        RestartAction::Stop
    }
}

/// With looping off a video that has ended is not started anew: it is stopped, and then
/// neither is playback to be started again nor is the video taken to have ended again when
/// no frame comes. With looping on it is sought back to its beginning.
pub proof fn law_video_without_looping_plays_once(p: PlayerView)
    requires
        p.video is Some,
    ensures
        !p.config.loop_playback ==> {
            &&& restart_action_of(p) == RestartAction::Stop
            &&& stopped_at_end(p, true).state == PlayerState::Stopped
            &&& !needs_start_of(stopped_at_end(p, true))
            &&& after_wait_of(stopped_at_end(p, true), Received::TimedOut) == AfterWait::Wait
        },
        p.config.loop_playback ==> restart_action_of(p) == RestartAction::Seek,
{
}

/// A frame that comes while a video is loaded is shown, and nothing but a frame is: a channel
/// that was closed ends the video, and without a video there is nothing to wait for.
pub proof fn law_every_frame_is_shown(p: PlayerView, frame: VideoFrame)
    ensures
        p.video is Some ==> after_wait_of(p, Received::Frame(frame)) == AfterWait::Show(frame),
        p.video is None ==> after_wait_of(p, Received::Frame(frame)) == AfterWait::Ended,
        after_wait_of(p, Received::Closed) == AfterWait::Ended,
        p.video is None ==> after_wait_of(p, Received::TimedOut) == AfterWait::Ended,
{
}

/// Stopping changes nothing but the playback state, and, at the end of the video, that it has
/// ended; it changes nothing at all when it is refused or nothing is loaded.
pub proof fn law_stopping_changes_the_state_only(p: PlayerView, accepted: bool)
    ensures
        !accepted || p.video is None ==> stopped(p, accepted) == p && stopped_at_end(p, accepted)
            == p,
        accepted && p.video is Some ==> {
            &&& stopped(p, accepted).state == PlayerState::Stopped
            &&& stopped(p, accepted).ended == p.ended
            &&& stopped_at_end(p, accepted).state == PlayerState::Stopped
            &&& stopped_at_end(p, accepted).ended
        },
        stopped(p, accepted).config == p.config && stopped_at_end(p, accepted).config == p.config,
        stopped(p, accepted).video == p.video && stopped_at_end(p, accepted).video == p.video,
        stopped(p, accepted).screen_width == p.screen_width && stopped_at_end(
            p,
            accepted,
        ).screen_width == p.screen_width,
        stopped(p, accepted).screen_height == p.screen_height && stopped_at_end(
            p,
            accepted,
        ).screen_height == p.screen_height,
{
}

/// Playback is started only from the stopped state, and then always, unless the video was
/// stopped because it had ended.
pub proof fn law_stopped_video_is_started(p: PlayerView)
    ensures
        p.state == PlayerState::Stopped && !p.ended <==> needs_start_of(p),
        restart_action_of(p) == RestartAction::Nothing <==> p.config.loop_playback && p.video
            is None,
        restart_action_of(p) == RestartAction::Stop <==> !p.config.loop_playback,
{
}

impl VideoPlayer {
    /// Creates a new video player, with nothing loaded.
    pub fn new(config: &VideoConfig, screen_width: u32, screen_height: u32) -> (p: Self)
        ensures
            p@ == (PlayerView {
                config: *config,
                state: PlayerState::Stopped,
                video: None,
                screen_width,
                screen_height,
                ended: false,
            }),
    {
        VideoPlayer {
            config: *config,
            state: PlayerState::Stopped,
            current_video_path: None,
            screen_width,
            screen_height,
            ended: false,
        }
    }

    /// The playback state.
    pub fn state(&self) -> (s: PlayerState)
        ensures
            s == self@.state,
    {
        self.state
    }

    /// Whether a pipeline is loaded.
    pub fn is_loaded(&self) -> (r: bool)
        ensures
            r == (self@.video is Some),
    {
        self.current_video_path.is_some()
    }

    /// The description of the pipeline that plays `video_path`.
    pub fn pipeline_description(&self, video_path: &str, current_dir: &str) -> (text: String)
        ensures
            text@ == pipeline_text(
                video_uri(video_path@, current_dir@),
                self@.config,
                self@.screen_width,
                self@.screen_height,
            ),
    {
        let mut uri = "file://".to_owned();
        if is_absolute(video_path) {
            uri.append(video_path);
        } else {
            uri.append(join_path(current_dir, video_path).as_str());
        }
        let mut text = "uridecodebin uri=\"".to_owned();
        text.append(uri.as_str());
        text.append("\" name=decoder");
        text.append(" ! videoconvert");
        text.append(" ! videoscale method=");
        text.append(scaling_method(self.config.scaling_quality));
        text.append(" add-borders=false ! video/x-raw,width=");
        text.append(decimal_text(self.screen_width as u64).as_str());
        text.append(",height=");
        text.append(decimal_text(self.screen_height as u64).as_str());
        text.append(" ! videoconvert");
        let ghost so_far = text@;
        if self.config.target_fps > 0 {
            text.append(" ! videorate ! video/x-raw,framerate=");
            text.append(decimal_text(self.config.target_fps as u64).as_str());
            text.append("/1");
        }
        assert(text@ =~= so_far + rate_text(self.config.target_fps));
        text.append(" ! video/x-raw,format=BGRA");
        text.append(" ! appsink name=appsink drop=true");
        text
    }

    /// Records how loading `video_path` went. Whatever was loaded before is
    /// stopped first; a video that cannot be loaded leaves the previous one in
    /// place.
    pub fn load_video(&mut self, video_path: &str, outcome: LoadOutcome) -> (r: Result<
        (),
        VideoError,
    >)
        ensures
            match outcome {
                LoadOutcome::Missing => final(self)@ == old(self)@ && (r matches Err(
                    VideoError::NotFound(p),
                ) && p@ == video_path@),
                LoadOutcome::StopRefused => final(self)@ == old(self)@ && r == Err::<(), VideoError>(
                    VideoError::StopFailed,
                ),
                LoadOutcome::PipelineFailed => final(self)@ == stopped(old(self)@, true) && r == Err::<
                    (),
                    VideoError,
                >(VideoError::PipelineFailed),
                LoadOutcome::NotAPipeline => final(self)@ == stopped(old(self)@, true) && r == Err::<
                    (),
                    VideoError,
                >(VideoError::NotAPipeline),
                LoadOutcome::NoSink => final(self)@ == stopped(old(self)@, true) && r == Err::<
                    (),
                    VideoError,
                >(VideoError::NoSink),
                LoadOutcome::NotASink => final(self)@ == stopped(old(self)@, true) && r == Err::<
                    (),
                    VideoError,
                >(VideoError::NotASink),
                LoadOutcome::Ready => final(self)@ == (PlayerView {
                    state: PlayerState::Stopped,
                    video: Some(video_path@),
                    ended: false,
                    ..old(self)@
                }) && r is Ok,
            },
    {
        match outcome {
            LoadOutcome::Missing => return Err(VideoError::NotFound(video_path.to_owned())),
            LoadOutcome::StopRefused => return Err(VideoError::StopFailed),
            _ => {},
        }
        if self.current_video_path.is_some() {
            self.state = PlayerState::Stopped;
        }
        match outcome {
            LoadOutcome::PipelineFailed => Err(VideoError::PipelineFailed),
            LoadOutcome::NotAPipeline => Err(VideoError::NotAPipeline),
            LoadOutcome::NoSink => Err(VideoError::NoSink),
            LoadOutcome::NotASink => Err(VideoError::NotASink),
            _ => {
                self.current_video_path = Some(video_path.to_owned());
                self.state = PlayerState::Stopped;
                self.ended = false;
                Ok(())
            },
        }
    }

    /// Records how the change of the loaded pipeline to the playing state went.
    /// Without a pipeline there is nothing to play.
    pub fn play(&mut self, outcome: PlayOutcome) -> (r: Result<(), VideoError>)
        ensures
            old(self)@.video is None ==> final(self)@ == old(self)@ && r is Ok,
            old(self)@.video is Some ==> match outcome {
                PlayOutcome::Reported(error, debug) => final(self)@ == old(self)@ && r == Err::<
                    (),
                    VideoError,
                >(VideoError::PipelineError(error, debug)),
                PlayOutcome::Failed(error) => final(self)@ == old(self)@ && r == Err::<(), VideoError>(
                    VideoError::PlayFailed(error),
                ),
                _ => final(self)@ == (PlayerView {
                    state: PlayerState::Playing,
                    ended: false,
                    ..old(self)@
                }) && r is Ok,
            },
    {
        if self.current_video_path.is_none() {
            return Ok(());
        }
        match outcome {
            PlayOutcome::Reported(error, debug) => Err(VideoError::PipelineError(error, debug)),
            PlayOutcome::Failed(error) => Err(VideoError::PlayFailed(error)),
            _ => {
                self.state = PlayerState::Playing;
                self.ended = false;
                Ok(())
            },
        }
    }

    /// Records whether the loaded pipeline accepted to stop.
    pub fn stop(&mut self, accepted: bool) -> (r: Result<(), VideoError>)
        ensures
            final(self)@ == stopped(old(self)@, accepted),
            r is Ok <==> old(self)@.video is None || accepted,
            r matches Err(e) ==> e == VideoError::StopFailed,
    {
        if self.current_video_path.is_some() {
            if !accepted {
                return Err(VideoError::StopFailed);
            }
            self.state = PlayerState::Stopped;
        }
        Ok(())
    }

    /// Records that the stream came to its end.
    pub fn end_of_stream(&mut self)
        ensures
            final(self)@ == (PlayerView { state: PlayerState::EndOfStream, ..old(self)@ }),
    {
        self.state = PlayerState::EndOfStream;
    }

    /// Whether playback is to be started before the next frame is asked for.
    pub fn needs_start(&self) -> (r: bool)
        ensures
            r == needs_start_of(self@),
    {
        self.state == PlayerState::Stopped && !self.ended
    }

    /// The next frame, given what came over the channel; none without a pipeline.
    pub fn next_frame(&self, received: Received) -> (frame: Option<VideoFrame>)
        ensures
            frame == match received {
                Received::Frame(f) if self@.video is Some => Some(f),
                _ => None,
            },
    {
        if self.current_video_path.is_none() {
            return None;
        }
        match received {
            Received::Frame(f) => Some(f),
            Received::Closed => None,
            Received::TimedOut => None,
        }
    }

    /// What to do after waiting for a frame, given what came over the channel.
    pub fn after_wait(&self, received: Received) -> (step: AfterWait)
        ensures
            step == after_wait_of(self@, received),
    {
        let timed_out = match &received {
            Received::TimedOut => true,
            _ => false,
        };
        let waits = timed_out && self.is_loaded() && self.state != PlayerState::EndOfStream;
        match self.next_frame(received) {
            Some(frame) => AfterWait::Show(frame),
            None => if waits {
                AfterWait::Wait
            } else {
                AfterWait::Ended
            },
        }
    }

    /// What to do with the pipeline when the video has ended.
    pub fn restart_action(&self) -> (a: RestartAction)
        ensures
            a == restart_action_of(self@),
    {
        if self.config.loop_playback {
            if self.current_video_path.is_some() {
                RestartAction::Seek
            } else {
                RestartAction::Nothing
            }
        } else {
            RestartAction::Stop
        }
    }

    /// Whether the pipeline is to be stopped when the video has ended, given whether it
    /// took the seek to the beginning.
    pub fn restart_stops(&self, sought: bool) -> (r: bool)
        ensures
            r == match restart_action_of(self@) {
                RestartAction::Nothing => false,
                RestartAction::Seek => !sought,
                RestartAction::Stop => true,
            },
    {
        match self.restart_action() {
            RestartAction::Nothing => false,
            RestartAction::Seek => !sought,
            RestartAction::Stop => true,
        }
    }

    /// Records how the restart went: whether the pipeline took the seek to the
    /// beginning, and, where it is to be stopped, whether it accepted that. A
    /// pipeline that will not seek is stopped. A video that is not to loop is stopped
    /// for good.
    pub fn restart(&mut self, sought: bool, accepted_stop: bool) -> (r: Result<(), VideoError>)
        ensures
            match restart_action_of(old(self)@) {
                RestartAction::Nothing => final(self)@ == old(self)@ && r is Ok,
                RestartAction::Seek if sought => final(self)@ == (PlayerView {
                    state: PlayerState::Playing,
                    ..old(self)@
                }) && r is Ok,
                RestartAction::Seek => final(self)@ == stopped(old(self)@, accepted_stop) && (
                r is Ok <==> accepted_stop),
                RestartAction::Stop => final(self)@ == stopped_at_end(old(self)@, accepted_stop)
                    && (r is Ok <==> old(self)@.video is None || accepted_stop),
            },
            r matches Err(e) ==> e == VideoError::StopFailed,
    {
        match self.restart_action() {
            RestartAction::Nothing => Ok(()),
            RestartAction::Seek => {
                if sought {
                    self.state = PlayerState::Playing;
                    Ok(())
                } else {
                    self.stop(accepted_stop)
                }
            },
            RestartAction::Stop => {
                let stopped = self.stop(accepted_stop);
                if self.current_video_path.is_some() && accepted_stop {
                    self.ended = true;
                }
                stopped
            },
        }
    }
}

} // verus!
