use punktfunk::civil::civil_from_days;
use punktfunk::native::stream::send::session_for;
use punktfunk::stats_recorder::{
    capture_id, list, recording_file, valid_id, Capture, CaptureMeta, MetaSeed, StatsRecorder,
    MAX_SAMPLES,
};
use std::collections::BTreeMap;

type Recorder = StatsRecorder<u32, u8>;

/// 2026-06-26T20:14:03Z.
const UNIX_MS: u64 = 1_782_504_843_000;

fn seed(kind: &str, width: u32, height: u32, fps: u32, codec: &str, client: &str) -> MetaSeed {
    MetaSeed {
        kind: kind.to_string(),
        width,
        height,
        fps,
        codec: codec.to_string(),
        client: client.to_string(),
        encoder_backend: "nvenc".to_string(),
        gpu: "gpu0".to_string(),
    }
}

#[test]
fn a_second_capture_seeds_its_own_header() {
    let mut rec: Recorder = StatsRecorder::new();
    let mut sid: Option<(u64, u32)> = None;
    let mut tick = |rec: &mut Recorder| {
        let capture_gen = rec.generation();
        let id = match session_for(sid, capture_gen) {
            Some(id) => id,
            None => {
                let id = rec.register_session(seed("native", 1920, 1080, 120, "hevc", "ab12"));
                sid = Some((capture_gen, id));
                id
            }
        };
        rec.push_sample(id, 0, 10);
    };
    rec.start(0, UNIX_MS);
    tick(&mut rec);
    let first = rec.stop(20).unwrap().meta;
    rec.start(30, UNIX_MS);
    tick(&mut rec);
    let second = rec.stop(40).unwrap().meta;
    assert_eq!((first.kind.as_str(), first.width), ("native", 1920));
    assert_eq!((second.kind.as_str(), second.width), ("native", 1920));
    assert!(!second.truncated);
}

#[test]
fn arm_record_save_load_delete() {
    // The recordings' directory, by file name.
    let mut dir: BTreeMap<String, Capture<u32, u8>> = BTreeMap::new();
    let mut rec: Recorder = StatsRecorder::new();
    assert!(!rec.is_armed());
    assert!(!rec.status(0).armed);
    rec.push_sample(0, 1, 0);

    let st = rec.start(1_000, UNIX_MS);
    assert!(st.armed);
    assert!(rec.is_armed());
    let sid = rec.register_session(seed("native", 5120, 1440, 240, "hevc", "abcd"));
    rec.push_sample(sid, 2, 1_500);
    rec.push_sample(sid, 3, 2_000);
    assert_eq!(rec.status(2_000).sample_count, 2);
    assert_eq!(rec.status(2_000).kind, "native");
    assert_eq!(rec.status(2_000).elapsed_ms, 1_000);
    assert!(rec.live_meta(2_000).is_some());

    let cap = rec.stop(3_000).expect("a capture was recording");
    let meta_id = cap.meta.id.clone();
    assert_eq!(cap.meta.sample_count, 2);
    assert_eq!(cap.meta.kind, "native");
    assert_eq!(cap.meta.width, 5120);
    assert!(meta_id.ends_with("_5120x1440"), "id was {meta_id}");
    assert_eq!(meta_id, "2026-06-26T20-14-03Z_5120x1440");
    assert_eq!(cap.meta.duration_ms, 2_000);
    assert!(!rec.is_armed());
    assert!(rec.live_meta(3_000).is_none());
    assert!(rec.stop(3_000).is_none());

    dir.insert(recording_file(&meta_id).unwrap(), cap);
    assert_eq!(dir.len(), 1);
    let loaded = dir.get(&recording_file(&meta_id).unwrap()).unwrap();
    assert_eq!(loaded.samples.len(), 2);
    assert_eq!(loaded.samples[1].t_ms, 1_000);
    assert_eq!(loaded.samples[1].session_id, sid);
    assert_eq!(loaded.meta.codec, "hevc");

    assert!(dir.remove(&recording_file(&meta_id).unwrap()).is_some());
    assert!(dir.is_empty());
    assert!(dir.remove(&recording_file(&meta_id).unwrap()).is_none());
}

#[test]
fn rejects_path_traversal_ids() {
    for bad in [
        "../secret",
        "..",
        ".",
        "a/b",
        "a\\b",
        "",
        "/etc/passwd",
        "x/../../y",
    ] {
        assert_eq!(recording_file(bad), None, "{bad:?} must be rejected");
        assert!(!valid_id(bad));
    }
    assert!(valid_id("2026-06-26T20-14-03Z_5120x1440"));
    assert_eq!(recording_file("a-b"), Some("a-b.json".to_string()));
}

#[test]
fn samples_are_bounded() {
    let mut rec: Recorder = StatsRecorder::new();
    rec.start(0, UNIX_MS);
    for _ in 0..(MAX_SAMPLES + 50) {
        rec.push_sample(0, 0, 0);
        rec.push_link(1);
    }
    assert_eq!(rec.status(0).sample_count as usize, MAX_SAMPLES);
    let cap = rec.stop(1).unwrap();
    assert!(cap.meta.truncated);
    assert_eq!(cap.link.len(), MAX_SAMPLES);
}

#[test]
fn start_is_idempotent_while_armed() {
    let mut rec: Recorder = StatsRecorder::new();
    rec.start(0, UNIX_MS);
    rec.register_session(seed("native", 1920, 1080, 60, "hevc", ""));
    rec.push_sample(0, 0, 5);
    let st = rec.start(10, UNIX_MS + 10);
    assert!(st.armed);
    assert_eq!(st.sample_count, 1);
    assert_eq!(st.started_unix_ms, UNIX_MS);
}

#[test]
fn only_the_first_session_names_a_capture() {
    let mut rec: Recorder = StatsRecorder::new();
    rec.start(0, UNIX_MS);
    let a = rec.register_session(seed("native", 1920, 1080, 60, "hevc", ""));
    let b = rec.register_session(seed("gamestream", 640, 480, 30, "h264", ""));
    assert_ne!(a, b);
    let meta = rec.stop(1).unwrap().meta;
    assert_eq!(meta.kind, "native");
    assert_eq!(meta.height, 1080);
    assert_eq!(session_for(Some((1, 7)), 1), Some(7));
    assert_eq!(session_for(Some((1, 7)), 2), None);
    assert_eq!(session_for(None, 2), None);
}

fn recording(id: &str, started_unix_ms: u64) -> CaptureMeta {
    CaptureMeta {
        id: id.to_string(),
        started_unix_ms,
        duration_ms: 0,
        kind: String::new(),
        width: 0,
        height: 0,
        fps: 0,
        codec: String::new(),
        client: String::new(),
        sample_count: 0,
        encoder_backend: String::new(),
        gpu: String::new(),
        truncated: false,
    }
}

#[test]
fn recordings_are_listed_newest_first() {
    let ids: Vec<String> = list(vec![
        recording("a", 5),
        recording("b", 9),
        recording("c", 5),
        recording("d", 1),
    ])
    .into_iter()
    .map(|m| m.id)
    .collect();
    assert_eq!(ids, vec!["b", "a", "c", "d"]);
}

#[test]
fn dates_of_day_counts() {
    assert_eq!(civil_from_days(0), (1970, 1, 1));
    assert_eq!(civil_from_days(-1), (1969, 12, 31));
    assert_eq!(civil_from_days(11_016), (2000, 2, 29));
    assert_eq!(civil_from_days(11_017), (2000, 3, 1));
    assert_eq!(civil_from_days(-25_509), (1900, 2, 28));
    assert_eq!(civil_from_days(-25_508), (1900, 3, 1));
    assert_eq!(civil_from_days(-719_468), (0, 3, 1));
    assert_eq!(civil_from_days(-719_469), (0, 2, 29));
    assert_eq!(capture_id(0, 1, 2), "1970-01-01T00-00-00Z_1x2");
    assert_eq!(
        capture_id(951_868_799_999, 1920, 1080),
        "2000-02-29T23-59-59Z_1920x1080"
    );
}
