use preparer::branch::ConstructionError;
use preparer::builder::{
    build_static_graph, BuildError, LadderConfig, AUDIO_HEAD, DEMUXER, FIRST_RUNG, PACKAGER,
    SOURCE, SPLITTER,
};
use preparer::graph::PortLinkState;
use preparer::stage::{Link, LinkFilter, StageKind};

fn config(ladder: Vec<u32>) -> LadderConfig {
    LadderConfig { ladder, preset: 8, target_duration: 4, frame_rate: 30 }
}

#[test]
fn default_config_has_two_rungs() {
    let c = LadderConfig::default();
    assert_eq!(c.ladder, vec![6, 2]);
    assert_eq!(c.preset, 8);
    assert_eq!(c.target_duration, 4);
    assert_eq!(c.frame_rate, 30);
}

#[test]
fn keyframe_interval_is_frames_per_segment() {
    assert_eq!(LadderConfig::default().keyframe_interval(), Some(120));
    let c = LadderConfig { ladder: vec![], preset: 0, target_duration: 6, frame_rate: 25 };
    assert_eq!(c.keyframe_interval(), Some(150));
    let zero = LadderConfig { ladder: vec![], preset: 0, target_duration: 0, frame_rate: 60 };
    assert_eq!(zero.keyframe_interval(), Some(0));
}

#[test]
fn keyframe_interval_that_overflows_is_none() {
    let c = LadderConfig { ladder: vec![], preset: 0, target_duration: 65536, frame_rate: 65536 };
    assert_eq!(c.keyframe_interval(), None);
    let fits = LadderConfig { ladder: vec![], preset: 0, target_duration: 65535, frame_rate: 65537 };
    assert_eq!(fits.keyframe_interval(), Some(4_294_967_295));
}

#[test]
fn every_rung_of_the_default_ladder_has_interval_120() {
    let built = build_static_graph(&LadderConfig::default()).unwrap();
    assert_eq!(built.rungs.len(), 2);
    for rung in &built.rungs {
        assert_eq!(rung.keyframe_interval(), 120);
        assert_eq!(rung.preset(), 8);
    }
    assert_eq!(built.rungs[0].bitrate_kbps(), 6000);
    assert_eq!(built.rungs[1].bitrate_kbps(), 2000);
}

#[test]
fn static_graph_has_its_stages_in_fixed_places() {
    let built = build_static_graph(&LadderConfig::default()).unwrap();
    assert_eq!(built.source, SOURCE);
    assert_eq!(built.demuxer, DEMUXER);
    assert_eq!(built.splitter, SPLITTER);
    assert_eq!(built.packager, PACKAGER);
    assert_eq!(built.audio.head(), Some(AUDIO_HEAD));
    assert_eq!(built.rungs[0].head(), Some(FIRST_RUNG));
    assert_eq!(built.rungs[1].head(), Some(FIRST_RUNG + 9));
    let g = &built.graph;
    assert!(g.is_live());
    assert_eq!(g.stage_count(), 28);
    assert_eq!(g.stage_at(0), Some(StageKind::Source));
    assert_eq!(g.stage_at(1), Some(StageKind::Demultiplexer));
    assert_eq!(g.stage_at(2), Some(StageKind::Splitter));
    assert_eq!(g.stage_at(3), Some(StageKind::Buffer));
    assert_eq!(g.stage_at(7), Some(StageKind::AudioEncoder { bitrate: 192_000 }));
    assert_eq!(g.stage_at(9), Some(StageKind::Packager { target_duration: 4 }));
    assert_eq!(
        g.stage_at(12),
        Some(StageKind::ResolutionCap { max_width: 1920, max_height: 1080 })
    );
    assert_eq!(
        g.stage_at(15),
        Some(StageKind::VideoEncoder { preset: 8, bitrate_kbps: 6000, keyframe_interval: 120 })
    );
    assert_eq!(
        g.stage_at(24),
        Some(StageKind::VideoEncoder { preset: 8, bitrate_kbps: 2000, keyframe_interval: 120 })
    );
    assert_eq!(g.stage_at(28), None);
}

#[test]
fn static_graph_links_source_audio_and_rungs() {
    let built = build_static_graph(&LadderConfig::default()).unwrap();
    let g = &built.graph;
    assert_eq!(g.link_count(), 27);
    assert_eq!(g.link_at(0), Some(Link::new(0, 1)));
    assert_eq!(g.link_at(1), Some(Link::new(3, 4)));
    assert_eq!(g.link_at(4), Some(Link { from: 6, to: 7, filter: LinkFilter::StereoAudio }));
    assert_eq!(g.link_at(6), Some(Link::new(8, 9)));
    assert_eq!(g.link_at(7), Some(Link::new(2, 10)));
    assert_eq!(
        g.link_at(15),
        Some(Link { from: 17, to: 18, filter: LinkFilter::EncodedVideoUnits })
    );
    assert_eq!(g.link_at(16), Some(Link::new(18, 9)));
    assert_eq!(g.link_at(17), Some(Link::new(2, 19)));
    assert_eq!(g.link_at(26), Some(Link::new(27, 9)));
}

#[test]
fn each_rung_is_linked_once_to_splitter_and_packager() {
    for ladder in [vec![], vec![3], vec![6, 2], vec![8, 6, 4, 2, 1]] {
        let n = ladder.len();
        let built = build_static_graph(&config(ladder.clone())).unwrap();
        let g = &built.graph;
        assert_eq!(built.rungs.len(), n);
        assert_eq!(g.stage_count(), 10 + 9 * n);
        assert_eq!(g.link_count(), 7 + 10 * n);
        assert_eq!(g.out_degree(built.splitter), n);
        assert_eq!(g.in_degree(built.packager), n + 1);
        for (i, rung) in built.rungs.iter().enumerate() {
            let head = rung.head().unwrap();
            let tail = rung.tail().unwrap();
            assert_eq!(head, 10 + 9 * i);
            assert_eq!(tail, head + 8);
            assert_eq!(rung.bitrate_kbps(), ladder[i] * 1000);
            assert!(g.connects(built.splitter, head));
            assert_eq!(g.in_degree(head), 1);
            assert!(g.connects(tail, built.packager));
            assert_eq!(g.out_degree(tail), 1);
        }
    }
}

#[test]
fn empty_ladder_builds_audio_only() {
    let built = build_static_graph(&config(vec![])).unwrap();
    assert!(built.rungs.is_empty());
    assert_eq!(built.graph.stage_count(), 10);
    assert_eq!(built.graph.link_count(), 7);
    assert_eq!(built.graph.in_degree(built.packager), 1);
    assert_eq!(built.graph.out_degree(built.splitter), 0);
}

#[test]
fn inputs_wait_for_the_demultiplexer() {
    let built = build_static_graph(&LadderConfig::default()).unwrap();
    assert_eq!(built.graph.input_state(built.splitter), PortLinkState::Unlinked);
    assert_eq!(built.graph.input_state(AUDIO_HEAD), PortLinkState::Unlinked);
    assert_eq!(built.graph.input_state(built.demuxer), PortLinkState::Linked);
    assert_eq!(built.graph.out_degree(built.demuxer), 0);
}

#[test]
fn audio_registers_one_rendition() {
    let built = build_static_graph(&LadderConfig::default()).unwrap();
    let tail = built.audio.tail().unwrap();
    assert_eq!(tail, 8);
    assert!(built.graph.connects(tail, built.packager));
    assert_eq!(built.graph.out_degree(tail), 1);
}

#[test]
fn packager_takes_the_segment_length() {
    let c = LadderConfig { ladder: vec![1], preset: 3, target_duration: 10, frame_rate: 24 };
    let built = build_static_graph(&c).unwrap();
    assert_eq!(built.graph.stage_at(9), Some(StageKind::Packager { target_duration: 10 }));
    assert_eq!(
        built.graph.stage_at(15),
        Some(StageKind::VideoEncoder { preset: 3, bitrate_kbps: 1000, keyframe_interval: 240 })
    );
}

#[test]
fn build_fails_when_the_interval_overflows() {
    let c = LadderConfig { ladder: vec![6], preset: 8, target_duration: 65536, frame_rate: 65536 };
    assert_eq!(build_static_graph(&c).err(), Some(BuildError::KeyframeIntervalOverflow));
    let empty =
        LadderConfig { ladder: vec![], preset: 8, target_duration: 65536, frame_rate: 65536 };
    assert_eq!(build_static_graph(&empty).err(), Some(BuildError::KeyframeIntervalOverflow));
}

#[test]
fn build_names_the_first_rung_that_fails() {
    assert_eq!(
        build_static_graph(&config(vec![1, 5_000_000, 6_000_000])).err(),
        Some(BuildError::Rung { index: 1, error: ConstructionError::BitrateOutOfRange })
    );
    assert_eq!(
        build_static_graph(&config(vec![u32::MAX])).err(),
        Some(BuildError::Rung { index: 0, error: ConstructionError::BitrateOutOfRange })
    );
}

#[test]
fn build_fails_when_the_interval_exceeds_the_encoder_range() {
    let c = LadderConfig { ladder: vec![6, 2], preset: 8, target_duration: 32768, frame_rate: 65536 };
    assert_eq!(c.keyframe_interval(), Some(2_147_483_648));
    assert_eq!(
        build_static_graph(&c).err(),
        Some(BuildError::Rung {
            index: 0,
            error: ConstructionError::KeyframeIntervalOutOfRange
        })
    );
    let over = LadderConfig { ladder: vec![u32::MAX], ..c };
    assert_eq!(
        build_static_graph(&over).err(),
        Some(BuildError::Rung { index: 0, error: ConstructionError::BitrateOutOfRange })
    );
}

#[test]
fn interval_beyond_the_encoder_range_is_harmless_without_rungs() {
    let c = LadderConfig { ladder: vec![], preset: 8, target_duration: 32768, frame_rate: 65536 };
    let built = build_static_graph(&c).unwrap();
    assert_eq!(built.graph.stage_count(), 10);
}
