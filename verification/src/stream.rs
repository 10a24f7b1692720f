//! Discovered streams: what the format descriptor of a stream port says
//! about it, and where the router sends it.

use crate::text::{has_prefix, starts_with};
use vstd::prelude::*;
use vstd::string::*;

verus! {

/// The kind of media that a stream carries.
#[derive(Clone, Copy, PartialEq, Eq, Debug, Structural)]
pub enum MediaKind {
    Video,
    Audio,
    Subtitle,
    Unknown,
}

/// Where a discovered stream port stands with the router.
#[derive(Clone, Copy, PartialEq, Eq, Debug, Structural)]
pub enum RouteState {
    /// The router has not seen the port yet.
    Unclassified,
    /// The port carries video.
    Video,
    /// The port carries audio.
    Audio,
    /// The port carries a subtitle track.
    Subtitle,
    /// The port is left alone: its format is not recognised, or its link
    /// failed.
    Ignored,
}

/// The media kind that a format name announces by its prefix: `video/`,
/// `audio/`, and `text/` or `subtitle/` for subtitles.
pub open spec fn media_kind_of(format: Seq<char>) -> MediaKind {
    if has_prefix(format, "video/"@) {
        MediaKind::Video
    } else if has_prefix(format, "audio/"@) {
        MediaKind::Audio
    } else if has_prefix(format, "text/"@) || has_prefix(format, "subtitle/"@) {
        MediaKind::Subtitle
    } else {
        MediaKind::Unknown
    }
}

/// The state that a port of media kind `kind` is routed to.
pub open spec fn class_of(kind: MediaKind) -> RouteState {
    match kind {
        MediaKind::Video => RouteState::Video,
        MediaKind::Audio => RouteState::Audio,
        MediaKind::Subtitle => RouteState::Subtitle,
        MediaKind::Unknown => RouteState::Ignored,
    }
}

/// The prefix of a format name decides where its stream goes: `video/` to
/// video, `audio/` to audio, `text/` and `subtitle/` to subtitles, and any
/// other to ignored.
pub proof fn lemma_prefix_decides_class(format: Seq<char>)
    ensures
        has_prefix(format, "video/"@) ==> class_of(media_kind_of(format)) == RouteState::Video,
        has_prefix(format, "audio/"@) ==> class_of(media_kind_of(format)) == RouteState::Audio,
        has_prefix(format, "text/"@) ==> class_of(media_kind_of(format)) == RouteState::Subtitle,
        has_prefix(format, "subtitle/"@) ==> class_of(media_kind_of(format))
            == RouteState::Subtitle,
        !has_prefix(format, "video/"@) && !has_prefix(format, "audio/"@) && !has_prefix(
            format,
            "text/"@,
        ) && !has_prefix(format, "subtitle/"@) ==> class_of(media_kind_of(format))
            == RouteState::Ignored,
{
    reveal_strlit("video/");
    reveal_strlit("audio/");
    reveal_strlit("text/");
    reveal_strlit("subtitle/");
    if has_prefix(format, "video/"@) {
        assert(format.subrange(0, 6)[0] == 'v');
    }
    if has_prefix(format, "audio/"@) {
        assert(format.subrange(0, 6)[0] == 'a');
    }
    if has_prefix(format, "text/"@) {
        assert(format.subrange(0, 5)[0] == 't');
    }
    if has_prefix(format, "subtitle/"@) {
        assert(format.subrange(0, 9)[0] == 's');
    }
}

/// Reads the media kind off the prefix of a format name.
pub fn media_kind(format: &str) -> (kind: MediaKind)
    ensures
        kind == media_kind_of(format@),
{
    if starts_with(format, "video/") {
        MediaKind::Video
    } else if starts_with(format, "audio/") {
        MediaKind::Audio
    } else if starts_with(format, "text/") || starts_with(format, "subtitle/") {
        MediaKind::Subtitle
    } else {
        MediaKind::Unknown
    }
}

/// Classifies a stream by its format name: video, audio, subtitle, or
/// ignored where the prefix is none of the known ones.
pub fn classify(format: &str) -> (state: RouteState)
    ensures
        state == class_of(media_kind_of(format@)),
        state != RouteState::Unclassified,
{
    match media_kind(format) {
        MediaKind::Video => RouteState::Video,
        MediaKind::Audio => RouteState::Audio,
        MediaKind::Subtitle => RouteState::Subtitle,
        MediaKind::Unknown => RouteState::Ignored,
    }
}

/// Mathematical content of a `StreamDescriptor`.
pub struct DescriptorView {
    pub kind: MediaKind,
    pub format: Seq<char>,
}

/// What is known of a discovered stream port once it carries data: its
/// format name and the media kind read off it.
#[derive(Debug)]
pub struct StreamDescriptor {
    kind: MediaKind,
    format: String,
}

impl View for StreamDescriptor {
    type V = DescriptorView;

    closed spec fn view(&self) -> DescriptorView {
        DescriptorView { kind: self.kind, format: self.format@ }
    }
}

impl StreamDescriptor {
    #[verifier::type_invariant]
    spec fn inv(self) -> bool {
        self.kind == media_kind_of(self.format@)
    }

    /// Describes a stream by its format name.
    pub fn new(format: &str) -> (d: StreamDescriptor)
        ensures
            d@ == (DescriptorView { kind: media_kind_of(format@), format: format@ }),
    {
        StreamDescriptor { kind: media_kind(format), format: String::from_str(format) }
    }

    /// The media kind of the stream.
    pub fn kind(&self) -> (kind: MediaKind)
        ensures
            kind == self@.kind,
            kind == media_kind_of(self@.format),
    {
        proof {
            use_type_invariant(self);
        }
        self.kind
    }

    /// The format name of the stream.
    pub fn format(&self) -> (format: &str)
        ensures
            format@ == self@.format,
    {
        self.format.as_str()
    }

    /// The state that the router gives the stream's port: that of its media
    /// kind, or ignored where the kind is unknown.
    pub fn class(&self) -> (state: RouteState)
        ensures
            state == class_of(self@.kind),
    {
        match self.kind {
            MediaKind::Video => RouteState::Video,
            MediaKind::Audio => RouteState::Audio,
            MediaKind::Subtitle => RouteState::Subtitle,
            MediaKind::Unknown => RouteState::Ignored,
        }
    }
}

} // verus!
