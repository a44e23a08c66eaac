//! What is decided when a source is opened: which stream is decoded, how
//! its pictures are turned, which decoder is asked for, and the session
//! that results.
//!
//! The container is read outside. What was read arrives here as plain
//! values, one `StreamInfo` for each stream.

use crate::display_size::calculate_display_video_size;
use crate::display_size::is_display_size;
use crate::opened_stream::OpenedStream;
use crate::scalable_frame::Rotate;
use vstd::prelude::*;

verus! {

/// The angle 0.0, as the bits of an IEEE 754 double.
pub const ANGLE_0: u64 = 0x0000_0000_0000_0000;

/// The angle -0.0.
pub const ANGLE_MINUS_0: u64 = 0x8000_0000_0000_0000;

/// The angle 90.0.
pub const ANGLE_90: u64 = 0x4056_8000_0000_0000;

/// The angle 180.0.
pub const ANGLE_180: u64 = 0x4066_8000_0000_0000;

/// The angle 270.0.
pub const ANGLE_270: u64 = 0x4070_E000_0000_0000;

/// The angle -90.0.
pub const ANGLE_MINUS_90: u64 = 0xC056_8000_0000_0000;

/// What a stream carries.
#[derive(Clone, Copy, Debug, PartialEq, Eq, Structural)]
pub enum MediaKind {
    Video,
    Audio,
    Other,
}

/// The codecs for which a decoder that keeps the alpha channel exists.
#[derive(Clone, Copy, Debug, PartialEq, Eq, Structural)]
pub enum CodecKind {
    Vp8,
    Vp9,
    Other,
}

/// What is read of one stream of a container.
#[derive(Debug, PartialEq, Eq)]
pub struct StreamInfo {
    pub medium: MediaKind,
    /// Length in stream time units; negative where the container has none.
    pub duration: i64,
    pub codec: CodecKind,
    /// The angle of each display matrix among the stream's side data, in
    /// degrees, as the bits of an IEEE 754 double, in the order they stand.
    pub rotations: Vec<u64>,
}

/// The decoder to ask for.
#[derive(Clone, Copy, Debug, PartialEq, Eq, Structural)]
pub enum DecoderChoice {
    /// Whatever decoder the codec comes with.
    Default,
    /// `libvpx`, decoding into a format of four planes with alpha.
    Libvpx,
    /// `libvpx-vp9`, decoding into a format of four planes with alpha.
    LibvpxVp9,
}

/// What was decided about a source before its decoder is made.
#[derive(Clone, Copy, Debug, PartialEq, Eq, Structural)]
pub struct StreamPlan {
    pub stream_index: usize,
    pub duration_or_zero: i64,
    pub rotation: Rotate,
    pub decoder: DecoderChoice,
}

/// Why a source cannot be opened.
#[derive(Clone, Copy, Debug, PartialEq, Eq, Structural)]
pub enum OpenError {
    /// The container holds no video stream.
    NoVideoStream,
    /// A display matrix turns the picture by an angle that is no multiple
    /// of a quarter turn; `bits` is that angle.
    UnsupportedRotation { bits: u64 },
}

/// What the decoder reports once it is made.
#[derive(Clone, Copy, Debug, PartialEq, Eq)]
pub struct DecoderInfo {
    /// Pixel format, as the decoder numbers it.
    pub format: i32,
    pub width: u32,
    pub height: u32,
    /// The display aspect ratio, `aspect_x : aspect_y`; a zero term where
    /// the stream has none.
    pub aspect_x: i32,
    pub aspect_y: i32,
}

/// The angle is zero: the matrix does not turn the picture.
pub open spec fn is_no_turn(bits: u64) -> bool {
    bits == ANGLE_0 || bits == ANGLE_MINUS_0
}

/// The turn an angle stands for, if it is one of 90, 180, 270 and -90
/// degrees.
pub open spec fn turn_of(bits: u64) -> Option<Rotate> {
    if bits == ANGLE_90 {
        Some(Rotate::Rotate90)
    } else if bits == ANGLE_180 {
        Some(Rotate::Rotate180)
    } else if bits == ANGLE_270 || bits == ANGLE_MINUS_90 {
        Some(Rotate::Rotate270)
    } else {
        None
    }
}

/// The rotation a stream is shown with: that of its last display matrix
/// that turns the picture, none without one; the first angle that is no
/// multiple of a quarter turn is an error.
pub open spec fn rotation_of(readings: Seq<u64>) -> Result<Rotate, OpenError>
    decreases readings.len(),
{
    if readings.len() == 0 {
        Ok(Rotate::Rotate0)
    } else {
        match rotation_of(readings.drop_last()) {
            Err(error) => Err(error),
            Ok(so_far) => if is_no_turn(readings.last()) {
                Ok(so_far)
            } else {
                match turn_of(readings.last()) {
                    Some(turn) => Ok(turn),
                    None => Err(OpenError::UnsupportedRotation { bits: readings.last() }),
                }
            },
        }
    }
}

/// Stream `i` is the first video stream.
pub open spec fn is_first_video(streams: Seq<StreamInfo>, i: int) -> bool {
    &&& 0 <= i < streams.len()
    &&& streams[i].medium == MediaKind::Video
    &&& forall|j: int| 0 <= j < i ==> (#[trigger] streams[j]).medium != MediaKind::Video
}

/// The decoder for a stream: one that keeps the alpha channel where
/// transparency is asked for and the codec has such a decoder.
pub open spec fn decoder_for(transparent: bool, codec: CodecKind) -> DecoderChoice {
    if !transparent {
        DecoderChoice::Default
    } else {
        match codec {
            CodecKind::Vp8 => DecoderChoice::Libvpx,
            CodecKind::Vp9 => DecoderChoice::LibvpxVp9,
            CodecKind::Other => DecoderChoice::Default,
        }
    }
}

/// A stream's length, 0 where it is unknown.
pub open spec fn known_duration(duration: i64) -> i64 {
    if duration > 0 {
        duration
    } else {
        0
    }
}

/// `plan` is what is decided about a container with these streams.
pub open spec fn is_plan_for(
    streams: Seq<StreamInfo>,
    transparent: bool,
    plan: Result<StreamPlan, OpenError>,
) -> bool {
    match plan {
        Ok(made) => {
            &&& is_first_video(streams, made.stream_index as int)
            &&& rotation_of(streams[made.stream_index as int].rotations@) == Ok::<
                Rotate,
                OpenError,
            >(made.rotation)
            &&& made.duration_or_zero == known_duration(streams[made.stream_index as int].duration)
            &&& made.decoder == decoder_for(transparent, streams[made.stream_index as int].codec)
        },
        Err(OpenError::NoVideoStream) => forall|i: int|
            0 <= i < streams.len() ==> (#[trigger] streams[i]).medium != MediaKind::Video,
        Err(error) => exists|i: int|
            is_first_video(streams, i) && rotation_of((#[trigger] streams[i]).rotations@) == Err::<
                Rotate,
                OpenError,
            >(error),
    }
}

/// One plan at most is that of a container.
pub proof fn lemma_plan_unique(
    streams: Seq<StreamInfo>,
    transparent: bool,
    first: Result<StreamPlan, OpenError>,
    second: Result<StreamPlan, OpenError>,
)
    requires
        is_plan_for(streams, transparent, first),
        is_plan_for(streams, transparent, second),
    ensures
        first == second,
{
    let a = lemma_plan_names_stream(streams, transparent, first);
    let b = lemma_plan_names_stream(streams, transparent, second);
    if a >= 0 && b >= 0 {
        if a < b {
            assert(streams[a].medium != MediaKind::Video);
        } else if b < a {
            assert(streams[b].medium != MediaKind::Video);
        }
    } else if a >= 0 {
        assert(streams[a].medium != MediaKind::Video);
    } else if b >= 0 {
        assert(streams[b].medium != MediaKind::Video);
    }
}

/// The first video stream that a plan speaks of; -1 where it says that
/// there is none.
proof fn lemma_plan_names_stream(
    streams: Seq<StreamInfo>,
    transparent: bool,
    plan: Result<StreamPlan, OpenError>,
) -> (i: int)
    requires
        is_plan_for(streams, transparent, plan),
    ensures
        i >= 0 ==> is_first_video(streams, i),
        i >= 0 ==> match plan {
            Ok(made) => made.stream_index == i,
            Err(error) => rotation_of(streams[i].rotations@) == Err::<Rotate, OpenError>(error),
        },
        i < 0 ==> plan == Err::<StreamPlan, OpenError>(OpenError::NoVideoStream) && forall|j: int|
            0 <= j < streams.len() ==> (#[trigger] streams[j]).medium != MediaKind::Video,
{
    match plan {
        Ok(made) => made.stream_index as int,
        Err(OpenError::NoVideoStream) => -1,
        Err(error) => choose|i: int|
            is_first_video(streams, i) && rotation_of((#[trigger] streams[i]).rotations@) == Err::<
                Rotate,
                OpenError,
            >(error),
    }
}

/// The rotation a stream is shown with, from the angles of its display
/// matrices: see `rotation_of`.
pub fn resolve_rotation(readings: &Vec<u64>) -> (rotation: Result<Rotate, OpenError>)
    ensures
        rotation == rotation_of(readings@),
        rotation matches Err(error) ==> error is UnsupportedRotation,
{
    let mut rotate = Rotate::Rotate0;
    let mut i: usize = 0;
    while i < readings.len()
        invariant
            i <= readings.len(),
            rotation_of(readings@.take(i as int)) == Ok::<Rotate, OpenError>(rotate),
        decreases readings.len() - i,
    {
        let bits = readings[i];
        proof {
            assert(readings@.take(i + 1).drop_last() =~= readings@.take(i as int));
            assert(readings@.take(i + 1).last() == bits);
        }
        if bits != ANGLE_0 && bits != ANGLE_MINUS_0 {
            if bits == ANGLE_90 {
                rotate = Rotate::Rotate90;
            } else if bits == ANGLE_180 {
                rotate = Rotate::Rotate180;
            } else if bits == ANGLE_270 || bits == ANGLE_MINUS_90 {
                rotate = Rotate::Rotate270;
            } else {
                proof {
                    lemma_rotation_error_stays(readings@, i + 1);
                }
                return Err(OpenError::UnsupportedRotation { bits });
            }
        }
        i += 1;
    }
    assert(readings@.take(i as int) =~= readings@);
    Ok(rotate)
}

/// An angle that cannot be used stays the error, whatever follows it.
proof fn lemma_rotation_error_stays(readings: Seq<u64>, k: int)
    requires
        0 <= k <= readings.len(),
        rotation_of(readings.take(k)) is Err,
    ensures
        rotation_of(readings) == rotation_of(readings.take(k)),
    decreases readings.len() - k,
{
    if k == readings.len() {
        assert(readings.take(k) =~= readings);
    } else {
        assert(readings.take(k + 1).drop_last() =~= readings.take(k));
        lemma_rotation_error_stays(readings, k + 1);
    }
}

/// Decides which stream of a container is decoded and how.
///
/// The stream is the first that carries video; a container without one
/// cannot be opened. The rotation is read off the stream's display
/// matrices, and an angle other than 0, 90, 180, 270 and -90 degrees is an
/// error. A decoder that keeps the alpha channel is chosen where
/// transparency is asked for and the codec is VP8 or VP9.
pub fn plan_stream(streams: &Vec<StreamInfo>, transparent: bool) -> (plan: Result<
    StreamPlan,
    OpenError,
>)
    ensures
        is_plan_for(streams@, transparent, plan),
{
    let mut i: usize = 0;
    while i < streams.len()
        invariant
            i <= streams.len(),
            forall|j: int| 0 <= j < i ==> (#[trigger] streams@[j]).medium != MediaKind::Video,
        decreases streams.len() - i,
    {
        let info = &streams[i];
        match info.medium {
            MediaKind::Video => {
                assert(is_first_video(streams@, i as int));
                let rotation = match resolve_rotation(&info.rotations) {
                    Ok(rotation) => rotation,
                    Err(error) => {
                        assert(rotation_of(streams@[i as int].rotations@) == Err::<
                            Rotate,
                            OpenError,
                        >(error));
                        return Err(error);
                    },
                };
                let duration_or_zero = if info.duration > 0 {
                    info.duration
                } else {
                    0
                };
                let decoder = if !transparent {
                    DecoderChoice::Default
                } else {
                    match info.codec {
                        CodecKind::Vp8 => DecoderChoice::Libvpx,
                        CodecKind::Vp9 => DecoderChoice::LibvpxVp9,
                        CodecKind::Other => DecoderChoice::Default,
                    }
                };
                return Ok(StreamPlan { stream_index: i, duration_or_zero, rotation, decoder });
            },
            _ => {},
        }
        i += 1;
    }
    Err(OpenError::NoVideoStream)
}

/// The session for a source whose decoder has been made as `plan` says.
///
/// The session stands at position 0 and has not seen the end of the
/// stream. Its pictures are shown at the size that the decoder's aspect
/// ratio gives to the decoded size.
pub fn open_stream(
    src: &str,
    original_src: &str,
    transparent: bool,
    plan: &StreamPlan,
    decoder: &DecoderInfo,
) -> (stream: OpenedStream)
    ensures
        stream.stream_index == plan.stream_index,
        stream.original_width == decoder.width,
        stream.original_height == decoder.height,
        is_display_size(
            decoder.aspect_x as int,
            decoder.aspect_y as int,
            decoder.width as nat,
            decoder.height as nat,
            (stream.scaled_width, stream.scaled_height),
        ),
        stream.format == decoder.format,
        stream.src@ == src@,
        stream.original_src@ == original_src@,
        stream.last_position == 0,
        stream.duration_or_zero == plan.duration_or_zero,
        !stream.reached_eof,
        stream.transparent == transparent,
        stream.rotation == plan.rotation,
{
    let (scaled_width, scaled_height) = calculate_display_video_size(
        decoder.aspect_x,
        decoder.aspect_y,
        decoder.width,
        decoder.height,
    );
    OpenedStream {
        stream_index: plan.stream_index,
        original_width: decoder.width,
        original_height: decoder.height,
        scaled_width,
        scaled_height,
        format: decoder.format,
        src: src.to_owned(),
        original_src: original_src.to_owned(),
        last_position: 0,
        duration_or_zero: plan.duration_or_zero,
        reached_eof: false,
        transparent,
        rotation: plan.rotation,
    }
}

} // verus!
