//! Processing stages and the links between them, as plain values.

use vstd::prelude::*;

verus! {

/// Index of a stage in the arena of the graph that owns it.
pub type StageId = usize;

/// Largest output width a video rendition may have.
pub const MAX_WIDTH: u32 = 1920;

/// Largest output height a video rendition may have.
pub const MAX_HEIGHT: u32 = 1080;

/// Bit rate, in bits per second, of the single audio rendition.
pub const AUDIO_BITRATE: u32 = 192000;

/// What a stage does, with the parameters that the engine needs to build it.
#[derive(Clone, Copy, PartialEq, Eq, Debug, Structural)]
pub enum StageKind {
    /// Reads the input file.
    Source,
    /// Decodes the container and exposes one output port per elementary stream,
    /// at run time.
    Demultiplexer,
    /// Copies one input stream to any number of output ports.
    Splitter,
    /// Decouples its upstream from its downstream.
    Buffer,
    /// Rescales video frames.
    Scaler,
    /// Lets through only frames of at most `max_width` by `max_height`.
    ResolutionCap { max_width: u32, max_height: u32 },
    /// Converts colour space and pixel format.
    ColorConverter,
    /// Encodes video at `bitrate_kbps`, with a keyframe every `keyframe_interval` frames.
    VideoEncoder { preset: u32, bitrate_kbps: u32, keyframe_interval: u32 },
    /// Normalises the encoded video stream for the packager.
    StreamParser,
    /// Converts audio sample formats.
    AudioConverter,
    /// Converts audio sample rates.
    AudioResampler,
    /// Encodes audio at `bitrate` bits per second.
    AudioEncoder { bitrate: u32 },
    /// Muxes renditions into segments of `target_duration` seconds and writes the manifest.
    Packager { target_duration: u32 },
    /// Renders subtitle text onto frames.
    TextOverlay,
    /// Encodes frames as still images.
    ImageEncoder,
    /// Writes the numbered image sequence of subtitle track `track_id`.
    ImageSequenceSink { track_id: usize },
    /// Writes the caption file of subtitle track `track_id`.
    CaptionSink { track_id: usize },
}

impl StageKind {
    /// The stage has an input port.
    pub open spec fn has_input(self) -> bool {
        !(self is Source)
    }

    /// The stage has an output port.
    pub open spec fn has_output(self) -> bool {
        !(self is Packager || self is ImageSequenceSink || self is CaptionSink)
    }

    /// The stage offers a fresh output port to every downstream stage.
    pub open spec fn fans_out(self) -> bool {
        self is Splitter || self is Demultiplexer
    }

    /// The stage offers a fresh input port to every upstream stage.
    pub open spec fn merges(self) -> bool {
        self is Packager
    }

    /// Tells whether the stage has an input port.
    pub fn accepts_input(&self) -> (b: bool)
        ensures
            b == self.has_input(),
    {
        match self {
            StageKind::Source => false,
            _ => true,
        }
    }

    /// Tells whether the stage has an output port.
    pub fn produces_output(&self) -> (b: bool)
        ensures
            b == self.has_output(),
    {
        match self {
            StageKind::Packager { .. } => false,
            StageKind::ImageSequenceSink { .. } => false,
            StageKind::CaptionSink { .. } => false,
            _ => true,
        }
    }

    /// Tells whether the stage can feed any number of downstream stages.
    pub fn is_fan_out(&self) -> (b: bool)
        ensures
            b == self.fans_out(),
    {
        match self {
            StageKind::Splitter => true,
            StageKind::Demultiplexer => true,
            _ => false,
        }
    }

    /// Tells whether the stage can take any number of upstream stages.
    pub fn is_merge(&self) -> (b: bool)
        ensures
            b == self.merges(),
    {
        match self {
            StageKind::Packager { .. } => true,
            _ => false,
        }
    }
}

/// Format constraint that a link imposes on the stream that crosses it.
#[derive(Clone, Copy, PartialEq, Eq, Debug, Structural)]
pub enum LinkFilter {
    /// No constraint.
    Any,
    /// Encoded video as a raw unit stream aligned on temporal units, the form
    /// that the packager expects.
    EncodedVideoUnits,
    /// Raw audio with exactly two channels.
    StereoAudio,
}

/// A connection from the output of one stage to the input of another.
#[derive(Clone, Copy, PartialEq, Eq, Debug, Structural)]
pub struct Link {
    pub from: StageId,
    pub to: StageId,
    pub filter: LinkFilter,
}

impl Link {
    /// An unconstrained link.
    pub open spec fn plain(from: StageId, to: StageId) -> Link {
        Link { from, to, filter: LinkFilter::Any }
    }

    /// Makes an unconstrained link.
    pub fn new(from: StageId, to: StageId) -> (l: Link)
        ensures
            l == Link::plain(from, to),
    {
        Link { from, to, filter: LinkFilter::Any }
    }

    /// Makes a link that lets through only streams that meet `filter`.
    pub fn filtered(from: StageId, to: StageId, filter: LinkFilter) -> (l: Link)
        ensures
            l == (Link { from, to, filter }),
    {
        Link { from, to, filter }
    }
}

} // verus!
