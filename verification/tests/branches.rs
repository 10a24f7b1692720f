use preparer::audio::AudioBranch;
use preparer::branch::{ConstructionError, EncodingBranch};
use preparer::graph::{AttachError, LinkError, LinkFault, PipelineGraph, PortLinkState};
use preparer::stage::{Link, LinkFilter, StageKind};
use preparer::subtitle::SubtitleBranch;

fn splitter_and_packager() -> PipelineGraph {
    let mut graph = PipelineGraph::new();
    assert_eq!(graph.add(StageKind::Splitter), Ok(0));
    assert_eq!(graph.add(StageKind::Packager { target_duration: 4 }), Ok(1));
    graph
}

#[test]
fn rung_converts_megabits_to_kilobits() {
    let rung = EncodingBranch::new(6, 8, 120).unwrap();
    assert_eq!(rung.bitrate_kbps(), 6000);
    assert_eq!(rung.preset(), 8);
    assert_eq!(rung.keyframe_interval(), 120);
    assert_eq!(rung.head(), None);
    assert_eq!(rung.tail(), None);
    assert_eq!(EncodingBranch::new(2, 8, 120).unwrap().bitrate_kbps(), 2000);
    assert_eq!(EncodingBranch::new(0, 0, 0).unwrap().bitrate_kbps(), 0);
}

#[test]
fn rung_takes_the_largest_rate_that_fits() {
    let rung = EncodingBranch::new(4_294_967, 8, 120).unwrap();
    assert_eq!(rung.bitrate_kbps(), 4_294_967_000);
}

#[test]
fn rung_rejects_a_rate_that_overflows() {
    assert_eq!(
        EncodingBranch::new(4_294_968, 8, 120).err(),
        Some(ConstructionError::BitrateOutOfRange)
    );
    assert_eq!(
        EncodingBranch::new(u32::MAX, 8, 120).err(),
        Some(ConstructionError::BitrateOutOfRange)
    );
}

#[test]
fn rung_rejects_an_interval_beyond_the_encoder_range() {
    assert!(EncodingBranch::new(6, 8, 2_147_483_647).is_ok());
    assert_eq!(
        EncodingBranch::new(6, 8, 2_147_483_648).err(),
        Some(ConstructionError::KeyframeIntervalOutOfRange)
    );
}

#[test]
fn rung_reports_the_rate_before_the_interval() {
    assert_eq!(
        EncodingBranch::new(u32::MAX, 8, u32::MAX).err(),
        Some(ConstructionError::BitrateOutOfRange)
    );
}

#[test]
fn rung_has_nine_stages() {
    let rung = EncodingBranch::new(6, 8, 120).unwrap();
    assert_eq!(
        rung.stages(),
        vec![
            StageKind::Buffer,
            StageKind::Scaler,
            StageKind::ResolutionCap { max_width: 1920, max_height: 1080 },
            StageKind::ColorConverter,
            StageKind::Buffer,
            StageKind::VideoEncoder { preset: 8, bitrate_kbps: 6000, keyframe_interval: 120 },
            StageKind::Buffer,
            StageKind::StreamParser,
            StageKind::Buffer,
        ]
    );
}

#[test]
fn rung_enters_a_graph_once() {
    let mut graph = splitter_and_packager();
    let mut rung = EncodingBranch::new(6, 8, 120).unwrap();
    assert_eq!(rung.add_to_pipeline(&mut graph), Ok(()));
    assert_eq!(rung.head(), Some(2));
    assert_eq!(rung.tail(), Some(10));
    assert_eq!(graph.stage_count(), 11);
    assert_eq!(
        graph.stage_at(7),
        Some(StageKind::VideoEncoder { preset: 8, bitrate_kbps: 6000, keyframe_interval: 120 })
    );
    assert_eq!(rung.add_to_pipeline(&mut graph), Err(AttachError::AlreadyAttached));
    assert_eq!(graph.stage_count(), 11);
    assert_eq!(rung.head(), Some(2));
}

#[test]
fn rung_does_not_enter_a_released_graph() {
    let mut graph = splitter_and_packager();
    graph.release();
    let mut rung = EncodingBranch::new(6, 8, 120).unwrap();
    assert_eq!(rung.add_to_pipeline(&mut graph), Err(AttachError::GraphReleased));
    assert_eq!(rung.head(), None);
    assert_eq!(graph.stage_count(), 2);
}

#[test]
fn rung_links_from_splitter_to_packager() {
    let mut graph = splitter_and_packager();
    let mut rung = EncodingBranch::new(6, 8, 120).unwrap();
    rung.add_to_pipeline(&mut graph).unwrap();
    assert_eq!(rung.link(&mut graph, 0, 1), Ok(()));
    assert_eq!(graph.link_count(), 10);
    assert_eq!(graph.link_at(0), Some(Link::new(0, 2)));
    for k in 0..7 {
        assert_eq!(graph.link_at(1 + k), Some(Link::new(2 + k, 3 + k)));
    }
    assert_eq!(
        graph.link_at(8),
        Some(Link { from: 9, to: 10, filter: LinkFilter::EncodedVideoUnits })
    );
    assert_eq!(graph.link_at(9), Some(Link::new(10, 1)));
    assert_eq!(graph.in_degree(1), 1);
    assert_eq!(graph.out_degree(10), 1);
    assert_eq!(graph.input_state(2), PortLinkState::Linked);
}

#[test]
fn rung_that_is_in_no_graph_does_not_link() {
    let mut graph = splitter_and_packager();
    let rung = EncodingBranch::new(6, 8, 120).unwrap();
    assert_eq!(
        rung.link(&mut graph, 0, 1),
        Err(LinkError { from: 0, to: 2, fault: LinkFault::UnknownStage })
    );
    assert_eq!(graph.link_count(), 0);
    graph.release();
    assert_eq!(
        rung.link(&mut graph, 0, 1),
        Err(LinkError { from: 0, to: 2, fault: LinkFault::GraphReleased })
    );
}

#[test]
fn rung_names_the_pair_that_does_not_link() {
    let mut graph = PipelineGraph::new();
    graph.add(StageKind::Splitter).unwrap();
    graph.add(StageKind::Source).unwrap();
    let mut rung = EncodingBranch::new(6, 8, 120).unwrap();
    rung.add_to_pipeline(&mut graph).unwrap();
    assert_eq!(
        rung.link(&mut graph, 0, 1),
        Err(LinkError { from: 10, to: 1, fault: LinkFault::NoFreeInput })
    );
    assert_eq!(graph.link_count(), 9);
}

#[test]
fn rung_fails_at_once_on_a_busy_upstream() {
    let mut graph = PipelineGraph::new();
    graph.add(StageKind::Buffer).unwrap();
    graph.add(StageKind::Packager { target_duration: 4 }).unwrap();
    graph.link(Link::new(0, 1)).unwrap();
    let mut rung = EncodingBranch::new(6, 8, 120).unwrap();
    rung.add_to_pipeline(&mut graph).unwrap();
    assert_eq!(
        rung.link(&mut graph, 0, 1),
        Err(LinkError { from: 0, to: 2, fault: LinkFault::NoFreeOutput })
    );
    assert_eq!(graph.link_count(), 1);
}

#[test]
fn rung_does_not_link_twice() {
    let mut graph = splitter_and_packager();
    let mut rung = EncodingBranch::new(6, 8, 120).unwrap();
    rung.add_to_pipeline(&mut graph).unwrap();
    rung.link(&mut graph, 0, 1).unwrap();
    assert_eq!(
        rung.link(&mut graph, 0, 1),
        Err(LinkError { from: 0, to: 2, fault: LinkFault::NoFreeInput })
    );
    assert_eq!(graph.link_count(), 10);
}

#[test]
fn audio_branch_has_six_stages() {
    let audio = AudioBranch::new();
    assert_eq!(audio.head(), None);
    assert_eq!(audio.tail(), None);
    assert_eq!(
        audio.stages(),
        vec![
            StageKind::Buffer,
            StageKind::AudioConverter,
            StageKind::AudioResampler,
            StageKind::Buffer,
            StageKind::AudioEncoder { bitrate: 192_000 },
            StageKind::Buffer,
        ]
    );
}

#[test]
fn audio_branch_forces_stereo_before_the_encoder() {
    let mut graph = PipelineGraph::new();
    graph.add(StageKind::Packager { target_duration: 4 }).unwrap();
    let mut audio = AudioBranch::new();
    assert_eq!(audio.add_to_pipeline(&mut graph), Ok(()));
    assert_eq!(audio.head(), Some(1));
    assert_eq!(audio.tail(), Some(6));
    assert_eq!(audio.link(&mut graph, 0), Ok(()));
    assert_eq!(graph.link_count(), 6);
    assert_eq!(graph.link_at(0), Some(Link::new(1, 2)));
    assert_eq!(graph.link_at(1), Some(Link::new(2, 3)));
    assert_eq!(graph.link_at(2), Some(Link::new(3, 4)));
    assert_eq!(graph.link_at(3), Some(Link { from: 4, to: 5, filter: LinkFilter::StereoAudio }));
    assert_eq!(graph.link_at(4), Some(Link::new(5, 6)));
    assert_eq!(graph.link_at(5), Some(Link::new(6, 0)));
    assert_eq!(graph.input_state(1), PortLinkState::Unlinked);
    assert_eq!(graph.in_degree(0), 1);
}

#[test]
fn audio_branch_enters_a_graph_once() {
    let mut graph = PipelineGraph::new();
    let mut audio = AudioBranch::new();
    assert_eq!(audio.add_to_pipeline(&mut graph), Ok(()));
    assert_eq!(audio.add_to_pipeline(&mut graph), Err(AttachError::AlreadyAttached));
    assert_eq!(graph.stage_count(), 6);
    let mut other = AudioBranch::new();
    graph.release();
    assert_eq!(other.add_to_pipeline(&mut graph), Err(AttachError::GraphReleased));
}

#[test]
fn audio_branch_that_is_in_no_graph_does_not_link() {
    let mut graph = PipelineGraph::new();
    graph.add(StageKind::Packager { target_duration: 4 }).unwrap();
    let audio = AudioBranch::new();
    assert_eq!(
        audio.link(&mut graph, 0),
        Err(LinkError { from: 1, to: 0, fault: LinkFault::UnknownStage })
    );
    assert_eq!(graph.link_count(), 0);
}

#[test]
fn audio_branch_names_the_pair_that_does_not_link() {
    let mut graph = PipelineGraph::new();
    graph.add(StageKind::Buffer).unwrap();
    let mut audio = AudioBranch::new();
    audio.add_to_pipeline(&mut graph).unwrap();
    graph.link(Link::new(0, 4)).unwrap();
    assert_eq!(
        audio.link(&mut graph, 0),
        Err(LinkError { from: 3, to: 4, fault: LinkFault::NoFreeInput })
    );
    assert_eq!(graph.link_count(), 3);
}

#[test]
fn subtitle_branch_names_its_directory_by_track() {
    let branch = SubtitleBranch::new("out", 0);
    assert_eq!(branch.track_id(), 0);
    assert_eq!(branch.directory(), "out/subtitles_0");
    assert_eq!(branch.frame_pattern(), "out/subtitles_0/frame_%05d.png");
    assert_eq!(branch.caption_file(), "out/subtitles_0/subtitles.vtt");
    assert_eq!(branch.head(), None);
}

#[test]
fn subtitle_directories_differ_by_track() {
    assert_eq!(SubtitleBranch::new("./output", 1).directory(), "./output/subtitles_1");
    assert_eq!(SubtitleBranch::new("./output/", 12).directory(), "./output/subtitles_12");
    assert_eq!(SubtitleBranch::new("", 305).directory(), "subtitles_305");
    assert_eq!(
        SubtitleBranch::new("/", usize::MAX).directory(),
        format!("/subtitles_{}", usize::MAX)
    );
}

#[test]
fn subtitle_branch_has_five_stages() {
    let branch = SubtitleBranch::new("out", 3);
    assert_eq!(
        branch.stages(),
        vec![
            StageKind::Buffer,
            StageKind::TextOverlay,
            StageKind::ImageEncoder,
            StageKind::ImageSequenceSink { track_id: 3 },
            StageKind::CaptionSink { track_id: 3 },
        ]
    );
}

#[test]
fn subtitle_branch_fans_out_to_images_and_captions() {
    let mut graph = PipelineGraph::new();
    let tee = graph.add(StageKind::Splitter).unwrap();
    let mut branch = SubtitleBranch::new("out", 0);
    assert_eq!(branch.add_to_pipeline(&mut graph), Ok(()));
    assert_eq!(branch.head(), Some(1));
    assert_eq!(graph.stage_count(), 6);
    assert_eq!(branch.link(&mut graph, tee), Ok(()));
    assert_eq!(graph.stage_count(), 9);
    assert_eq!(graph.stage_at(6), Some(StageKind::Splitter));
    assert_eq!(graph.stage_at(7), Some(StageKind::Buffer));
    assert_eq!(graph.stage_at(8), Some(StageKind::Buffer));
    assert_eq!(graph.link_count(), 7);
    assert_eq!(graph.link_at(0), Some(Link::new(0, 1)));
    assert_eq!(graph.link_at(1), Some(Link::new(1, 2)));
    assert_eq!(graph.link_at(2), Some(Link::new(2, 6)));
    assert_eq!(graph.link_at(3), Some(Link::new(6, 7)));
    assert_eq!(graph.link_at(4), Some(Link::new(7, 3)));
    assert_eq!(graph.link_at(5), Some(Link::new(3, 4)));
    assert_eq!(graph.link_at(6), Some(Link::new(6, 8)));
}

#[test]
fn subtitle_captions_are_not_wired() {
    let mut graph = PipelineGraph::new();
    let tee = graph.add(StageKind::Splitter).unwrap();
    let mut branch = SubtitleBranch::new("out", 0);
    branch.add_to_pipeline(&mut graph).unwrap();
    branch.link(&mut graph, tee).unwrap();
    assert_eq!(graph.stage_at(5), Some(StageKind::CaptionSink { track_id: 0 }));
    assert_eq!(graph.input_state(5), PortLinkState::Unlinked);
    assert_eq!(graph.out_degree(8), 0);
    assert_eq!(graph.stage_at(4), Some(StageKind::ImageSequenceSink { track_id: 0 }));
    assert_eq!(graph.input_state(4), PortLinkState::Linked);
}

#[test]
fn subtitle_branch_that_is_in_no_graph_does_not_link() {
    let mut graph = PipelineGraph::new();
    let tee = graph.add(StageKind::Splitter).unwrap();
    let branch = SubtitleBranch::new("out", 0);
    assert_eq!(
        branch.link(&mut graph, tee),
        Err(LinkError { from: 0, to: 1, fault: LinkFault::UnknownStage })
    );
    assert_eq!(graph.stage_count(), 1);
    assert_eq!(graph.link_count(), 0);
}

#[test]
fn subtitle_branch_does_not_link_in_a_released_graph() {
    let mut graph = PipelineGraph::new();
    let tee = graph.add(StageKind::Splitter).unwrap();
    let mut branch = SubtitleBranch::new("out", 0);
    branch.add_to_pipeline(&mut graph).unwrap();
    graph.release();
    assert_eq!(
        branch.link(&mut graph, tee),
        Err(LinkError { from: 0, to: 1, fault: LinkFault::GraphReleased })
    );
    assert_eq!(graph.stage_count(), 6);
}

#[test]
fn subtitle_branch_enters_a_graph_once() {
    let mut graph = PipelineGraph::new();
    let mut branch = SubtitleBranch::new("out", 0);
    assert_eq!(branch.add_to_pipeline(&mut graph), Ok(()));
    assert_eq!(branch.add_to_pipeline(&mut graph), Err(AttachError::AlreadyAttached));
    graph.release();
    let mut other = SubtitleBranch::new("out", 1);
    assert_eq!(other.add_to_pipeline(&mut graph), Err(AttachError::GraphReleased));
    assert_eq!(graph.stage_count(), 5);
}

#[test]
fn subtitle_branch_names_the_pair_that_does_not_link() {
    let mut graph = PipelineGraph::new();
    let upstream = graph.add(StageKind::Buffer).unwrap();
    let other = graph.add(StageKind::Buffer).unwrap();
    graph.link(Link::new(upstream, other)).unwrap();
    let mut branch = SubtitleBranch::new("out", 0);
    branch.add_to_pipeline(&mut graph).unwrap();
    assert_eq!(
        branch.link(&mut graph, upstream),
        Err(LinkError { from: 0, to: 2, fault: LinkFault::NoFreeOutput })
    );
    assert_eq!(graph.link_count(), 1);
    assert_eq!(graph.stage_count(), 10);
}
