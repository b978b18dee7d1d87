use video_triage::errors::TriageError;
use video_triage::video::is_candidate;
use video_triage::video::Video;
use video_triage::video::VideoExt;
use video_triage::video::VideoMetadata;

fn mk(ext: VideoExt, size: u64, width: u32, height: u32, duration_secs: u64) -> Video {
    Video {
        path: String::from("clip"),
        ext,
        size,
        metadata: VideoMetadata { width, height, duration_secs },
    }
}

#[test]
fn resolution_is_short_side() {
    assert_eq!(mk(VideoExt::Mp4, 0, 1920, 1080, 10).resolution(), 1080);
    assert_eq!(mk(VideoExt::Mp4, 0, 720, 1280, 10).resolution(), 720);
    assert_eq!(mk(VideoExt::Mp4, 0, 640, 640, 10).resolution(), 640);
}

#[test]
fn vf_filter_leaves_small_videos_alone() {
    assert_eq!(mk(VideoExt::Mp4, 0, 1280, 720, 10).vf_filter(), None);
    assert_eq!(mk(VideoExt::Mp4, 0, 640, 480, 10).vf_filter(), None);
    assert_eq!(mk(VideoExt::Mp4, 0, 720, 5000, 10).vf_filter(), None);
}

#[test]
fn vf_filter_scales_landscape_by_height() {
    assert_eq!(mk(VideoExt::Mp4, 0, 1920, 1080, 10).vf_filter(), Some("scale=-1:720"));
}

#[test]
fn vf_filter_scales_portrait_by_width() {
    assert_eq!(mk(VideoExt::Mp4, 0, 1080, 1920, 10).vf_filter(), Some("scale=720:-1"));
    // a large square counts as portrait: width is not greater than height
    assert_eq!(mk(VideoExt::Mp4, 0, 1000, 1000, 10).vf_filter(), Some("scale=720:-1"));
}

#[test]
fn over_sized_exact_boundary() {
    // threshold for 60 seconds: 60 * 300000 + 300 MiB
    let threshold = 60u64 * 300000 + 300 * 1024 * 1024;
    assert_eq!(threshold, 332_572_800);
    assert!(!mk(VideoExt::Mp4, threshold, 1, 1, 60).is_over_sized());
    assert!(mk(VideoExt::Mp4, threshold + 1, 1, 1, 60).is_over_sized());
}

#[test]
fn over_sized_monotonic_in_size() {
    let small = mk(VideoExt::Mp4, 332_572_801, 1, 1, 60);
    let large = mk(VideoExt::Mp4, 400_000_000, 1, 1, 60);
    assert!(small.is_over_sized());
    assert!(large.is_over_sized());
}

#[test]
fn huge_duration_is_never_over_sized() {
    // the duration-scaled baseline exceeds any real file size
    let v = mk(VideoExt::Mp4, u64::MAX, 1, 1, u64::MAX);
    assert!(!v.is_over_sized());
}

#[test]
fn size_per_second_exact() {
    assert_eq!(mk(VideoExt::Mp4, 1_000_000, 1, 1, 8).size_per_second(), 125_000);
    assert_eq!(mk(VideoExt::Mp4, 7, 1, 1, 2).size_per_second(), 3);
}

#[test]
fn candidate_by_forced_resolution() {
    let v = mk(VideoExt::Mp4, 0, 1920, 1080, 60);
    assert!(!v.is_over_sized());
    assert!(is_candidate(&v, true, false));
    assert!(!is_candidate(&v, false, false));
    let small = mk(VideoExt::Mp4, 0, 1280, 720, 60);
    assert!(!is_candidate(&small, true, false));
}

#[test]
fn candidate_by_forced_container() {
    let v = mk(VideoExt::Mkv, 0, 640, 480, 60);
    assert!(is_candidate(&v, false, true));
    let already = mk(VideoExt::Mp4, 0, 640, 480, 60);
    assert!(!is_candidate(&already, false, true));
}

#[test]
fn candidate_by_size_alone() {
    let v = mk(VideoExt::Mp4, 400_000_000, 640, 480, 60);
    assert!(is_candidate(&v, false, false));
}

#[test]
fn from_parts_rejects_zero_duration() {
    let m = VideoMetadata { width: 640, height: 480, duration_secs: 0 };
    let r = Video::from_parts(String::from("clip.mp4"), VideoExt::Mp4, 100, m);
    assert!(matches!(r, Err(TriageError::MetadataUnavailable)));
}

#[test]
fn from_parts_keeps_the_parts() {
    let m = VideoMetadata { width: 640, height: 480, duration_secs: 9 };
    let v = Video::from_parts(String::from("clip.mp4"), VideoExt::Avi, 100, m).unwrap();
    assert_eq!(v.path, "clip.mp4");
    assert!(matches!(v.ext, VideoExt::Avi));
    assert_eq!(v.size, 100);
    assert_eq!(v.metadata, m);
}

#[test]
fn error_descriptions() {
    assert_eq!(TriageError::NothingToDo.describe(), "the video looks fine");
    assert_eq!(TriageError::EmptyCorpus.describe(), "the list is empty");
}
