use video_triage::errors::TriageError;
use video_triage::paths::extension_of;
use video_triage::paths::is_flac;
use video_triage::video::VideoExt;
use video_triage::video::VideoMetadata;

#[test]
fn probe_record_parses_exactly() {
    let m = VideoMetadata::ffmpeg(b"1280x720x3600.25\n").unwrap();
    assert_eq!(m.width, 1280);
    assert_eq!(m.height, 720);
    assert_eq!(m.duration_secs, 3600);
}

#[test]
fn probe_record_without_fraction() {
    let m = VideoMetadata::ffmpeg(b"640x480x59").unwrap();
    assert_eq!((m.width, m.height, m.duration_secs), (640, 480, 59));
}

#[test]
fn probe_record_with_bare_dot_and_whitespace() {
    let m = VideoMetadata::ffmpeg(b"1x2x5. \r\n").unwrap();
    assert_eq!((m.width, m.height, m.duration_secs), (1, 2, 5));
}

#[test]
fn probe_record_ignores_fields_past_the_third() {
    let m = VideoMetadata::ffmpeg(b"1x2x3x999").unwrap();
    assert_eq!((m.width, m.height, m.duration_secs), (1, 2, 3));
}

#[test]
fn probe_record_at_u32_limit() {
    let m = VideoMetadata::ffmpeg(b"4294967295x1x1").unwrap();
    assert_eq!(m.width, u32::MAX);
    assert!(matches!(
        VideoMetadata::ffmpeg(b"4294967296x1x1"),
        Err(TriageError::MetadataUnavailable)
    ));
}

#[test]
fn probe_record_missing_fields_fail() {
    assert!(VideoMetadata::ffmpeg(b"").is_err());
    assert!(VideoMetadata::ffmpeg(b"1280").is_err());
    assert!(VideoMetadata::ffmpeg(b"1280x720").is_err());
    assert!(VideoMetadata::ffmpeg(b"1280x720x").is_err());
    assert!(VideoMetadata::ffmpeg(b"x720x10").is_err());
}

#[test]
fn probe_record_malformed_fields_fail() {
    assert!(VideoMetadata::ffmpeg(b"12a0x720x10").is_err());
    assert!(VideoMetadata::ffmpeg(b"1280x-720x10").is_err());
    assert!(VideoMetadata::ffmpeg(b"1280x720x10.5.2").is_err());
    assert!(VideoMetadata::ffmpeg(b"1280x720xabc").is_err());
    // a 21-digit duration cannot fit
    assert!(VideoMetadata::ffmpeg(b"1x1x184467440737095516160").is_err());
}

#[test]
fn extension_of_finds_the_last_suffix() {
    assert_eq!(extension_of(b"dir/file.mkv").as_deref(), Some(b"mkv".as_slice()));
    assert_eq!(extension_of(b"archive.tar.gz").as_deref(), Some(b"gz".as_slice()));
    assert_eq!(extension_of(b"file.").as_deref(), Some(b"".as_slice()));
}

#[test]
fn extension_of_none_cases() {
    assert_eq!(extension_of(b"noext"), None);
    assert_eq!(extension_of(b".hidden"), None);
    assert_eq!(extension_of(b"dir.d/file"), None);
    assert_eq!(extension_of(b"a/.config"), None);
    assert_eq!(extension_of(b""), None);
}

#[test]
fn flac_is_recognized_case_insensitively() {
    assert!(is_flac(b"music/Take.FLAC"));
    assert!(is_flac(b"x.flac"));
    assert!(!is_flac(b"x.flacc"));
    assert!(!is_flac(b"flac"));
    assert!(!is_flac(b"x.mp3"));
    assert!(!is_flac(b"flac/track.mp4"));
}

#[test]
fn supported_extensions_are_recognized() {
    assert_eq!(VideoExt::from_extension(b"MP4"), Some(VideoExt::Mp4));
    assert_eq!(VideoExt::from_extension(b"mkv"), Some(VideoExt::Mkv));
    assert_eq!(VideoExt::from_extension(b"Avi"), Some(VideoExt::Avi));
    assert_eq!(VideoExt::from_extension(b"TS"), Some(VideoExt::Ts));
    assert_eq!(VideoExt::from_extension(b"wmv"), Some(VideoExt::Wmv));
}

#[test]
fn unsupported_extensions_are_rejected() {
    assert_eq!(VideoExt::from_extension(b"mov"), None);
    assert_eq!(VideoExt::from_extension(b"mp"), None);
    assert_eq!(VideoExt::from_extension(b"mp44"), None);
    assert_eq!(VideoExt::from_extension(b""), None);
}

#[test]
fn container_format_from_path() {
    assert_eq!(VideoExt::from_path(b"shows/pilot.MKV"), Some(VideoExt::Mkv));
    assert_eq!(VideoExt::from_path(b"shows/pilot.txt"), None);
    assert_eq!(VideoExt::from_path(b"shows/pilot"), None);
}
